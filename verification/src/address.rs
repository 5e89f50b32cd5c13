//! Where peers are reached, and the invites that lead to a community.

use vstd::prelude::*;
use vstd::utf8::encode_utf8;

use crate::bytes::same_bytes;
use crate::community::{CommunityId, MemberId};
use crate::text::{
    byte_len, chars_of, hex, hex_reads_back, hex_value, push_hex, push_text, read_hex_32,
    same_text, text_between, utf8_len,
};

verus! {

/// What a text says as an endpoint address: the endpoint's key and the address in its usual form,
/// or the error's text.
pub uninterp spec fn endpoint_read(text: Seq<char>) -> Result<(Seq<u8>, Seq<char>), Seq<char>>;

/// What reading an endpoint address returned.
pub open spec fn endpoint_or_text(result: Result<([u8; 32], String), String>) -> Result<
    (Seq<u8>, Seq<char>),
    Seq<char>,
> {
    match result {
        Ok(pair) => Ok((pair.0@, pair.1@)),
        Err(text) => Err(text@),
    }
}

/// `serde_json::from_str` and `to_string` on `iroh::EndpointAddr`: what they return is a function
/// of the text. Nothing is claimed of reading the written form again: a relay may be any URL, and
/// a few URLs, such as `file://h//C:/x`, are written in a form that reads as another one.
#[verifier::external_body]
fn read_endpoint(text: &str) -> (read: Result<([u8; 32], String), String>)
    ensures
        endpoint_or_text(read) == endpoint_read(text@),
{
    serde_json::from_str::<iroh::EndpointAddr>(text)
        .and_then(|address| {
            serde_json::to_string(&address).map(|encoded| (*address.id.as_bytes(), encoded))
        })
        .map_err(|error| error.to_string())
}

/// Where a peer is reached.
#[derive(Debug, PartialEq, Eq)]
pub struct PeerAddress {
    member: MemberId,
    encoded: String,
}

/// What an address is: the peer's name, and the address as text.
pub struct AddressModel {
    pub member: MemberId,
    pub encoded: Seq<char>,
}

/// Why a text is no address.
#[derive(Debug, PartialEq, Eq)]
pub struct PeerAddressError {
    pub text: String,
}

impl PeerAddressError {
    /// What is wrong with the text.
    pub fn message(&self) -> (message: &str)
        ensures
            message@ == self.text@,
    {
        self.text.as_str()
    }

    /// The error in one line.
    pub fn to_text(&self) -> (text: String)
        ensures
            text@ == "invalid peer address: "@ + self.text@,
    {
        let mut text: String = "invalid peer address: ".to_owned();
        push_text(&mut text, self.text.as_str());
        text
    }
}

impl View for PeerAddress {
    type V = AddressModel;

    closed spec fn view(&self) -> AddressModel {
        AddressModel { member: self.member, encoded: self.encoded@ }
    }
}

impl AddressModel {
    /// Whether the text of the address reads as the address.
    pub open spec fn readable(self) -> bool {
        endpoint_read(self.encoded) == Ok::<(Seq<u8>, Seq<char>), Seq<char>>(
            (self.member@, self.encoded),
        )
    }
}

impl PeerAddress {
    /// The address that a text says.
    pub fn from_text(value: &str) -> (address: Result<Self, PeerAddressError>)
        ensures
            match address {
                Ok(address) => endpoint_read(value@) == Ok::<(Seq<u8>, Seq<char>), Seq<char>>(
                    (address@.member@, address@.encoded),
                ),
                Err(error) => endpoint_read(value@) == Err::<(Seq<u8>, Seq<char>), Seq<char>>(
                    error.text@,
                ),
            },
    {
        match read_endpoint(value) {
            Ok((key, encoded)) => Ok(PeerAddress { member: MemberId(key), encoded }),
            Err(text) => Err(PeerAddressError { text }),
        }
    }

    /// The peer's name: the key of its endpoint.
    pub fn member_id(&self) -> (member: MemberId)
        ensures
            member == self@.member,
    {
        self.member
    }

    /// The address as text.
    pub fn as_text(&self) -> (text: &str)
        ensures
            text@ == self@.encoded,
    {
        self.encoded.as_str()
    }

    /// Whether the text of the address reads as the address.
    pub fn reads_back(&self) -> (same: bool)
        ensures
            same == self@.readable(),
    {
        match read_endpoint(self.encoded.as_str()) {
            Ok((key, encoded)) => same_bytes(key.as_slice(), self.member.0.as_slice())
                && same_text(encoded.as_str(), self.encoded.as_str()),
            Err(_) => false,
        }
    }
}

impl Clone for PeerAddress {
    fn clone(&self) -> (copy: Self)
        ensures
            copy@ == self@,
    {
        PeerAddress { member: self.member, encoded: self.encoded.clone() }
    }
}

/// What leads to a community: its name and where its owner is reached.
#[derive(Debug, PartialEq, Eq)]
pub struct CommunityInvite {
    community_id: CommunityId,
    owner_address: PeerAddress,
}

/// What an invite is.
pub struct InviteModel {
    pub community_id: CommunityId,
    pub owner_address: AddressModel,
}

/// Why a text is no invite.
#[derive(Debug, PartialEq, Eq)]
pub struct CommunityInviteError {
    pub text: String,
}

impl CommunityInviteError {
    /// The error in one line.
    pub fn to_text(&self) -> (text: String)
        ensures
            text@ == "invalid community invite: "@ + self.text@,
    {
        let mut text: String = "invalid community invite: ".to_owned();
        push_text(&mut text, self.text.as_str());
        text
    }
}

impl View for CommunityInvite {
    type V = InviteModel;

    closed spec fn view(&self) -> InviteModel {
        InviteModel { community_id: self.community_id, owner_address: self.owner_address@ }
    }
}

/// The text of an invite.
pub open spec fn invite_text(invite: InviteModel) -> Seq<char> {
    seq!['p', 'c', '1', ':'] + hex(invite.community_id@) + seq![':'] + invite.owner_address.encoded
}

/// Whether a text starts as invites do.
pub open spec fn has_invite_prefix(text: Seq<char>) -> bool {
    text.len() >= 4 && text[0] == 'p' && text[1] == 'c' && text[2] == '1' && text[3] == ':'
}

/// Where the first colon behind the prefix stands, or the end of the text.
pub open spec fn colon_at(text: Seq<char>, from: int) -> int
    decreases text.len() - from,
{
    if from >= text.len() || text[from] == ':' {
        from
    } else {
        colon_at(text, from + 1)
    }
}

/// The community, the owner and the owner's address in an invite, or what is wrong with it.
pub open spec fn invite_read(text: Seq<char>) -> Result<
    (Seq<u8>, Seq<u8>, Seq<char>),
    Seq<char>,
> {
    if !has_invite_prefix(text) {
        Err("missing pc1 prefix"@)
    } else {
        let colon = colon_at(text, 4);
        if colon >= text.len() {
            Err("missing owner address"@)
        } else {
            let name = text.subrange(4, colon);
            if utf8_len(name) != 64 {
                Err("community id is not 32 bytes"@)
            } else {
                match hex_value(encode_utf8(name)) {
                    None => Err("invalid digit found in string"@),
                    Some(community) => match endpoint_read(text.skip(colon + 1)) {
                        Err(error) => Err("invalid peer address: "@ + error),
                        Ok((owner, encoded)) => Ok((community, owner, encoded)),
                    },
                }
            }
        }
    }
}

impl CommunityInvite {
    /// The invite to a community whose owner is reached at `owner_address`.
    pub fn new(community_id: CommunityId, owner_address: PeerAddress) -> (invite: Self)
        ensures
            invite@ == (InviteModel { community_id, owner_address: owner_address@ }),
    {
        CommunityInvite { community_id, owner_address }
    }

    /// The community.
    pub fn community_id(&self) -> (id: CommunityId)
        ensures
            id == self@.community_id,
    {
        self.community_id
    }

    /// Where the owner is reached.
    pub fn owner_address(&self) -> (address: &PeerAddress)
        ensures
            address@ == self@.owner_address,
    {
        &self.owner_address
    }

    /// The text of the invite.
    pub fn to_text(&self) -> (text: String)
        ensures
            text@ == invite_text(self@),
    {
        let mut text: String = "pc1:".to_owned();
        proof {
            reveal_strlit("pc1:");
            assert("pc1:"@ =~= seq!['p', 'c', '1', ':']);
        }
        push_hex(&mut text, self.community_id.0.as_slice());
        text.push(':');
        push_text(&mut text, self.owner_address.encoded.as_str());
        assert(text@ =~= invite_text(self@));
        text
    }

    /// The invite that a text says.
    pub fn from_text(value: &str) -> (invite: Result<Self, CommunityInviteError>)
        ensures
            match invite {
                Ok(invite) => invite_read(value@) == Ok::<
                    (Seq<u8>, Seq<u8>, Seq<char>),
                    Seq<char>,
                >(
                    (
                        invite@.community_id@,
                        invite@.owner_address.member@,
                        invite@.owner_address.encoded,
                    ),
                ),
                Err(error) => invite_read(value@) == Err::<
                    (Seq<u8>, Seq<u8>, Seq<char>),
                    Seq<char>,
                >(error.text@),
            },
    {
        let chars: Vec<char> = chars_of(value);
        if chars.len() < 4 || chars[0] != 'p' || chars[1] != 'c' || chars[2] != '1' || chars[3]
            != ':' {
            return Err(CommunityInviteError { text: "missing pc1 prefix".to_owned() });
        }
        let mut colon: usize = 4;
        while colon < chars.len() && chars[colon] != ':'
            invariant
                4 <= colon <= chars@.len(),
                chars@ == value@,
                colon_at(value@, 4) == colon_at(value@, colon as int),
            decreases chars@.len() - colon,
        {
            colon += 1;
        }
        if colon >= chars.len() {
            return Err(CommunityInviteError { text: "missing owner address".to_owned() });
        }
        let name: String = text_between(&chars, 4, colon);
        if byte_len(name.as_str()) != 64 {
            return Err(CommunityInviteError { text: "community id is not 32 bytes".to_owned() });
        }
        let id: [u8; 32] = match read_hex_32(name.as_str().as_bytes()) {
            Some(id) => id,
            None => {
                return Err(
                    CommunityInviteError { text: "invalid digit found in string".to_owned() },
                );
            },
        };
        let address: String = text_between(&chars, colon + 1, chars.len());
        assert(address@ =~= value@.skip(colon + 1));
        match PeerAddress::from_text(address.as_str()) {
            Ok(owner_address) => Ok(
                CommunityInvite { community_id: CommunityId(id), owner_address },
            ),
            Err(error) => Err(CommunityInviteError { text: error.to_text() }),
        }
    }
}

impl Clone for CommunityInvite {
    fn clone(&self) -> (copy: Self)
        ensures
            copy@ == self@,
    {
        CommunityInvite {
            community_id: self.community_id,
            owner_address: self.owner_address.clone(),
        }
    }
}

proof fn colon_found(text: Seq<char>, from: int, at: int)
    requires
        0 <= from <= at < text.len(),
        text[at] == ':',
        forall|i: int| from <= i < at ==> text[i] != ':',
    ensures
        colon_at(text, from) == at,
    decreases at - from,
{
    if from < at {
        colon_found(text, from + 1, at);
    }
}

/// Reading the text of an invite gives the invite, wherever the owner's address reads as itself:
/// the same community, the same owner, the same address.
pub proof fn invite_reads_back(invite: InviteModel)
    requires
        invite.owner_address.readable(),
    ensures
        invite_read(invite_text(invite)) == Ok::<(Seq<u8>, Seq<u8>, Seq<char>), Seq<char>>(
            (
                invite.community_id@,
                invite.owner_address.member@,
                invite.owner_address.encoded,
            ),
        ),
{
    let text = invite_text(invite);
    let name = hex(invite.community_id@);
    hex_reads_back(invite.community_id@);
    assert(name.len() == 64);
    assert forall|i: int| 4 <= i < 68 implies text[i] != ':' by {
        assert(text[i] == name[i - 4]);
    }
    assert(text[68] == ':');
    colon_found(text, 4, 68);
    assert(text.subrange(4, 68) =~= name);
    assert(text.skip(69) =~= invite.owner_address.encoded);
}

} // verus!
