//! What users type: names, identities, commands and the fields of forms.

use vstd::prelude::*;
use vstd::utf8::encode_utf8;

use crate::address::{endpoint_read, PeerAddress};
use crate::audio::{place_of, selected_device_index, texts};
use crate::community::{MemberId, MembershipChange};
use crate::model::{
    channel_error_text, channel_objection, display_name_error_text, display_name_objection, Channel,
    ChannelId, ChannelKind, ChannelModel, Command, DisplayName, MessageId,
};
use crate::session::SessionCommand;
use crate::text::{
    byte_len, chars_of, hex, hex_value, is_white_space, push_hex, read_hex_32, same_text,
    text_between, utf8_len, white_space,
};
use crate::text_input::{after_space, before_space};

verus! {

/// Characters that a backup passphrase has at least.
pub const MIN_PASSPHRASE_CHARS: usize = 12;

/// A text without the white space at its ends.
pub open spec fn trimmed_of(text: Seq<char>) -> Seq<char> {
    let start = after_space(text, 0);
    let end = before_space(text, text.len() as int);
    if start < end {
        text.subrange(start, end)
    } else {
        Seq::empty()
    }
}

/// The text without the white space at its ends.
pub fn trim(text: &str) -> (trimmed: String)
    ensures
        trimmed@ == trimmed_of(text@),
{
    let chars: Vec<char> = chars_of(text);
    let mut start: usize = 0;
    while start < chars.len() && white_space(chars[start])
        invariant
            start <= chars@.len(),
            chars@ == text@,
            after_space(text@, 0) == after_space(text@, start as int),
        decreases chars@.len() - start,
    {
        start += 1;
    }
    let mut end: usize = chars.len();
    while end > 0 && white_space(chars[end - 1])
        invariant
            end <= chars@.len(),
            chars@ == text@,
            before_space(text@, text@.len() as int) == before_space(text@, end as int),
        decreases end,
    {
        end -= 1;
    }
    if start < end {
        text_between(&chars, start, end)
    } else {
        let nothing: String = String::new();
        assert(nothing@ =~= Seq::<char>::empty());
        nothing
    }
}

/// The text behind a prefix, where it has it.
pub open spec fn behind(text: Seq<char>, prefix: Seq<char>) -> Option<Seq<char>> {
    if prefix.len() <= text.len() && text.take(prefix.len() as int) == prefix {
        Some(text.skip(prefix.len() as int))
    } else {
        None
    }
}

/// The text behind a prefix, where it has it.
pub fn strip_prefix(text: &str, prefix: &str) -> (rest: Option<String>)
    ensures
        match rest {
            Some(rest) => behind(text@, prefix@) == Some(rest@),
            None => behind(text@, prefix@) is None,
        },
{
    let chars: Vec<char> = chars_of(text);
    let start: Vec<char> = chars_of(prefix);
    if chars.len() < start.len() {
        return None;
    }
    let mut i: usize = 0;
    while i < start.len()
        invariant
            i <= start@.len() <= chars@.len(),
            chars@ == text@,
            start@ == prefix@,
            forall|j: int| 0 <= j < i ==> text@[j] == prefix@[j],
        decreases start@.len() - i,
    {
        if chars[i] != start[i] {
            assert(text@.take(prefix@.len() as int)[i as int] != prefix@[i as int]);
            return None;
        }
        i += 1;
    }
    assert(text@.take(prefix@.len() as int) =~= prefix@);
    assert(text@.subrange(prefix@.len() as int, text@.len() as int) =~= text@.skip(
        prefix@.len() as int,
    ));
    Some(text_between(&chars, start.len(), chars.len()))
}

/// Where the first space of a text is, from a place on.
pub open spec fn space_from(text: Seq<char>, i: int) -> int
    decreases text.len() - i,
{
    if i >= text.len() || text[i] == ' ' {
        i
    } else {
        space_from(text, i + 1)
    }
}

/// The two parts of a text around its first space, where it has one.
pub open spec fn parted(text: Seq<char>) -> Option<(Seq<char>, Seq<char>)> {
    let space = space_from(text, 0);
    if space < text.len() {
        Some((text.take(space), text.skip(space + 1)))
    } else {
        None
    }
}

/// The two parts of a text around its first space, where it has one.
pub fn split_once(text: &str) -> (parts: Option<(String, String)>)
    ensures
        match parts {
            Some(parts) => parted(text@) == Some((parts.0@, parts.1@)),
            None => parted(text@) is None,
        },
{
    let chars: Vec<char> = chars_of(text);
    let mut space: usize = 0;
    while space < chars.len() && chars[space] != ' '
        invariant
            space <= chars@.len(),
            chars@ == text@,
            space_from(text@, 0) == space_from(text@, space as int),
        decreases chars@.len() - space,
    {
        space += 1;
    }
    if space < chars.len() {
        assert(text@.subrange(0, space as int) =~= text@.take(space as int));
        assert(text@.subrange(space + 1, text@.len() as int) =~= text@.skip(space + 1));
        Some((text_between(&chars, 0, space), text_between(&chars, space + 1, chars.len())))
    } else {
        None
    }
}

/// The bytes that a text says in hexadecimal, or what is wrong with it.
pub open spec fn identity_read(text: Seq<char>) -> Result<Seq<u8>, Seq<char>> {
    if utf8_len(text) != 64 {
        Err("identity must contain 64 hexadecimal characters"@)
    } else {
        match hex_value(encode_utf8(text)) {
            Some(bytes) => Ok(bytes),
            None => Err("identity contains invalid hexadecimal"@),
        }
    }
}

/// The 32 bytes that a text says in hexadecimal.
pub fn parse_hex_32(value: &str) -> (bytes: Result<[u8; 32], String>)
    ensures
        match bytes {
            Ok(bytes) => identity_read(value@) == Ok::<Seq<u8>, Seq<char>>(bytes@),
            Err(error) => identity_read(value@) == Err::<Seq<u8>, Seq<char>>(error@),
        },
{
    if byte_len(value) != 64 {
        return Err("identity must contain 64 hexadecimal characters".to_owned());
    }
    match read_hex_32(value.as_bytes()) {
        Some(bytes) => Ok(bytes),
        None => Err("identity contains invalid hexadecimal".to_owned()),
    }
}

/// The member that a text names.
pub fn parse_member(value: &str) -> (member: Result<MemberId, String>)
    ensures
        match member {
            Ok(member) => identity_read(value@) == Ok::<Seq<u8>, Seq<char>>(member@),
            Err(error) => identity_read(value@) == Err::<Seq<u8>, Seq<char>>(error@),
        },
{
    match parse_hex_32(value) {
        Ok(bytes) => Ok(MemberId(bytes)),
        Err(error) => Err(error),
    }
}

/// A member's name in hexadecimal.
pub fn member_hex(member: MemberId) -> (text: String)
    ensures
        text@ == hex(member@),
{
    let mut text: String = String::new();
    push_hex(&mut text, member.0.as_slice());
    assert(text@ =~= hex(member@));
    text
}

/// A member's name in hexadecimal names the member.
pub proof fn member_hex_reads_back(member: MemberId)
    ensures
        identity_read(hex(member@)) == Ok::<Seq<u8>, Seq<char>>(member@),
{
    crate::text::hex_reads_back(member@);
}

/// The device after the chosen one: the first where none is chosen, none after the last.
pub open spec fn next_device(current: Option<Seq<char>>, devices: Seq<Seq<char>>) -> Option<
    Seq<char>,
> {
    match current {
        None => if devices.len() > 0 {
            Some(devices[0])
        } else {
            None
        },
        Some(current) => match place_of(devices, current) {
            Some(place) => if place + 1 < devices.len() {
                Some(devices[place + 1])
            } else {
                None
            },
            None => None,
        },
    }
}

/// The device after the chosen one.
pub fn cycle_device(current: Option<&str>, devices: &Vec<String>) -> (next: Option<String>)
    ensures
        crate::audio::said(next) == next_device(
            match current {
                Some(current) => Some(current@),
                None => None,
            },
            texts(devices@),
        ),
{
    match current {
        None => {
            if devices.len() > 0 {
                assert(texts(devices@)[0] == devices@[0]@);
                Some(devices[0].clone())
            } else {
                None
            }
        },
        Some(name) => match selected_device_index(Some(name), devices) {
            Some(index) => {
                assert(index < devices@.len());
                if index < devices.len() - 1 {
                    assert(texts(devices@)[index + 1] == devices@[index + 1]@);
                    Some(devices[index + 1].clone())
                } else {
                    None
                }
            },
            None => None,
        },
    }
}

/// What a command asks.
pub enum AskModel {
    SetDisplayName(Seq<char>),
    CreateChannel(ChannelModel),
    PostText(crate::model::TextModel),
    ShareAttachment(crate::model::AttachmentModel),
    ForgetAttachment { author: MemberId, id: MessageId },
    SendVoice(crate::model::VoiceFrameModel),
    SetVoicePresence { channel: ChannelId, state: crate::model::VoicePresence },
    ChangeMembership(MembershipChange),
    MarkRead { channel: ChannelId, message: MessageId },
    Connect { member: Seq<u8>, encoded: Seq<char> },
    RequestInvite,
    ExportIdentity { path: Seq<char>, passphrase: Seq<char> },
    JoinVoice(ChannelId),
    SetVoiceMuted(bool),
    SetVoiceDeafened(bool),
    SetVoiceDevices { input: Option<Seq<char>>, output: Option<Seq<char>> },
    LeaveVoice,
    VoiceFinished { generation: u64, channel: ChannelId, error: Option<Seq<char>> },
    Shutdown,
}

impl View for SessionCommand {
    type V = AskModel;

    open spec fn view(&self) -> AskModel {
        match self {
            SessionCommand::Execute(command) => match command {
                Command::SetDisplayName(name) => AskModel::SetDisplayName(name@),
                Command::CreateChannel(channel) => AskModel::CreateChannel(channel@),
                Command::PostText(message) => AskModel::PostText(message@),
                Command::ShareAttachment(attachment) => AskModel::ShareAttachment(attachment@),
                Command::ForgetAttachment { author, id } => AskModel::ForgetAttachment {
                    author: *author,
                    id: *id,
                },
                Command::SendVoice(frame) => AskModel::SendVoice(frame@),
                Command::SetVoicePresence { channel, state } => AskModel::SetVoicePresence {
                    channel: *channel,
                    state: *state,
                },
                Command::ChangeMembership(change) => AskModel::ChangeMembership(*change),
            },
            SessionCommand::MarkRead { channel, message } => AskModel::MarkRead {
                channel: *channel,
                message: *message,
            },
            SessionCommand::Connect(address) => AskModel::Connect {
                member: address@.member@,
                encoded: address@.encoded,
            },
            SessionCommand::RequestInvite => AskModel::RequestInvite,
            SessionCommand::ExportIdentity { path, passphrase } => AskModel::ExportIdentity {
                path: path@,
                passphrase: passphrase@,
            },
            SessionCommand::JoinVoice(channel) => AskModel::JoinVoice(*channel),
            SessionCommand::SetVoiceMuted(muted) => AskModel::SetVoiceMuted(*muted),
            SessionCommand::SetVoiceDeafened(deafened) => AskModel::SetVoiceDeafened(*deafened),
            SessionCommand::SetVoiceDevices(devices) => AskModel::SetVoiceDevices {
                input: crate::audio::said(devices.input_device),
                output: crate::audio::said(devices.output_device),
            },
            SessionCommand::LeaveVoice => AskModel::LeaveVoice,
            SessionCommand::VoiceFinished { generation, channel, result } => AskModel::VoiceFinished {
                generation: *generation,
                channel: *channel,
                error: match result {
                    Ok(()) => None,
                    Err(error) => Some(error@),
                },
            },
            SessionCommand::Shutdown => AskModel::Shutdown,
        }
    }
}

/// What a line that starts with a slash is.
#[derive(Debug)]
pub enum Typed {
    Leave,
    Mute,
    Name(DisplayName),
    Ask(SessionCommand),
    Attach(String),
    Complaint(String),
}

/// What such a line says.
pub enum TypedModel {
    Leave,
    Mute,
    Name(Seq<char>),
    Ask(AskModel),
    Attach(Seq<char>),
    Complaint(Seq<char>),
}

impl View for Typed {
    type V = TypedModel;

    open spec fn view(&self) -> TypedModel {
        match self {
            Typed::Leave => TypedModel::Leave,
            Typed::Mute => TypedModel::Mute,
            Typed::Name(name) => TypedModel::Name(name@),
            Typed::Ask(command) => TypedModel::Ask(command@),
            Typed::Attach(path) => TypedModel::Attach(path@),
            Typed::Complaint(text) => TypedModel::Complaint(text@),
        }
    }
}

/// What a name says, as a name for the local member.
pub open spec fn name_typed(name: Seq<char>) -> TypedModel {
    match display_name_objection(name) {
        Some(error) => TypedModel::Complaint(display_name_error_text(error)),
        None => TypedModel::Name(name),
    }
}

/// What a new channel's kind and name say.
pub open spec fn channel_typed(rest: Seq<char>, id: ChannelId) -> TypedModel {
    match parted(rest) {
        None => TypedModel::Complaint("usage: /channel text|voice name"@),
        Some((kind, name)) => if kind == "text"@ {
            channel_named(id, name, ChannelKind::Text)
        } else if kind == "voice"@ {
            channel_named(id, name, ChannelKind::Voice)
        } else {
            TypedModel::Complaint("channel kind must be text or voice"@)
        },
    }
}

/// What a new channel's name says.
pub open spec fn channel_named(id: ChannelId, name: Seq<char>, kind: ChannelKind) -> TypedModel {
    match channel_objection(name) {
        Some(error) => TypedModel::Complaint(channel_error_text(error)),
        None => TypedModel::Ask(AskModel::CreateChannel(ChannelModel { id, name, kind })),
    }
}

/// Whether what came of a member's name is an admission or a removal of that member, or a complaint.
pub open spec fn is_change_typed(typed: TypedModel, member: Seq<char>, admits: bool) -> bool {
    match identity_read(member) {
        Err(error) => typed == TypedModel::Complaint(error),
        Ok(bytes) => match typed {
            TypedModel::Ask(AskModel::ChangeMembership(MembershipChange::Admit(id))) => admits
                && id@ == bytes,
            TypedModel::Ask(AskModel::ChangeMembership(MembershipChange::Remove(id))) => !admits
                && id@ == bytes,
            _ => false,
        },
    }
}

/// What an address says.
pub open spec fn address_typed(address: Seq<char>) -> TypedModel {
    match endpoint_read(address) {
        Ok((member, encoded)) => TypedModel::Ask(AskModel::Connect { member, encoded }),
        Err(error) => TypedModel::Complaint("invalid peer address: "@ + error),
    }
}

/// What a backup's path and passphrase say.
pub open spec fn backup_typed(rest: Seq<char>) -> TypedModel {
    match parted(rest) {
        None => TypedModel::Complaint("usage: /backup path passphrase"@),
        Some((path, passphrase)) => TypedModel::Ask(AskModel::ExportIdentity { path, passphrase }),
    }
}

/// Whether a line that starts with a slash is this; `id` names the channel that it may create.
pub open spec fn is_typed(input: Seq<char>, id: ChannelId, typed: TypedModel) -> bool {
    if input == "/leave"@ {
        typed == TypedModel::Leave
    } else if input == "/mute"@ {
        typed == TypedModel::Mute
    } else if behind(input, "/name "@) is Some {
        typed == name_typed(behind(input, "/name "@)->0)
    } else if behind(input, "/channel "@) is Some {
        typed == channel_typed(behind(input, "/channel "@)->0, id)
    } else if behind(input, "/admit "@) is Some {
        is_change_typed(typed, behind(input, "/admit "@)->0, true)
    } else if behind(input, "/remove "@) is Some {
        is_change_typed(typed, behind(input, "/remove "@)->0, false)
    } else if behind(input, "/connect "@) is Some {
        typed == address_typed(behind(input, "/connect "@)->0)
    } else if behind(input, "/backup "@) is Some {
        typed == backup_typed(behind(input, "/backup "@)->0)
    } else if behind(input, "/attach "@) is Some {
        typed == TypedModel::Attach(behind(input, "/attach "@)->0)
    } else if input == "/help"@ {
        typed == TypedModel::Complaint(
            "commands: /name /channel /admit /remove /connect /backup /attach /mute /leave"@,
        )
    } else {
        typed == TypedModel::Complaint("unknown command; use /help"@)
    }
}

fn type_channel(rest: &str, id: ChannelId) -> (typed: Typed)
    ensures
        typed@ == channel_typed(rest@, id),
{
    match split_once(rest) {
        None => Typed::Complaint("usage: /channel text|voice name".to_owned()),
        Some((kind, name)) => {
            if same_text(kind.as_str(), "text") {
                type_channel_named(id, name.as_str(), ChannelKind::Text)
            } else if same_text(kind.as_str(), "voice") {
                type_channel_named(id, name.as_str(), ChannelKind::Voice)
            } else {
                Typed::Complaint("channel kind must be text or voice".to_owned())
            }
        },
    }
}

/// What a new channel's name says: a command that creates the channel, or a complaint.
pub fn type_channel_named(id: ChannelId, name: &str, kind: ChannelKind) -> (typed: Typed)
    ensures
        typed@ == channel_named(id, name@, kind),
{
    match Channel::new(id, name, kind) {
        Ok(channel) => Typed::Ask(SessionCommand::Execute(Command::CreateChannel(channel))),
        Err(error) => Typed::Complaint(error.text().to_owned()),
    }
}

/// What a name says: a name for the local member, or a complaint.
pub fn typed_name(name: &str) -> (typed: Typed)
    ensures
        typed@ == name_typed(name@),
{
    match DisplayName::new(name) {
        Ok(name) => Typed::Name(name),
        Err(error) => Typed::Complaint(error.text().to_owned()),
    }
}

fn type_change(member: &str, admits: bool) -> (typed: Typed)
    ensures
        is_change_typed(typed@, member@, admits),
{
    match parse_member(member) {
        Ok(member) => {
            let change: MembershipChange = if admits {
                MembershipChange::Admit(member)
            } else {
                MembershipChange::Remove(member)
            };
            Typed::Ask(SessionCommand::Execute(Command::ChangeMembership(change)))
        },
        Err(error) => Typed::Complaint(error),
    }
}

/// What an address says: a command that connects to it, or a complaint.
pub fn type_address(address: &str) -> (typed: Typed)
    ensures
        typed@ == address_typed(address@),
{
    match PeerAddress::from_text(address) {
        Ok(address) => Typed::Ask(SessionCommand::Connect(address)),
        Err(error) => Typed::Complaint(error.to_text()),
    }
}

fn type_backup(rest: &str) -> (typed: Typed)
    ensures
        typed@ == backup_typed(rest@),
{
    match split_once(rest) {
        None => Typed::Complaint("usage: /backup path passphrase".to_owned()),
        Some((path, passphrase)) => Typed::Ask(
            SessionCommand::ExportIdentity { path, passphrase },
        ),
    }
}

/// Reads a line that starts with a slash; `id` names the channel that it may create.
pub fn read_command(input: &str, id: ChannelId) -> (typed: Typed)
    ensures
        is_typed(input@, id, typed@),
{
    if same_text(input, "/leave") {
        return Typed::Leave;
    }
    if same_text(input, "/mute") {
        return Typed::Mute;
    }
    if let Some(name) = strip_prefix(input, "/name ") {
        return typed_name(name.as_str());
    }
    if let Some(rest) = strip_prefix(input, "/channel ") {
        return type_channel(rest.as_str(), id);
    }
    if let Some(member) = strip_prefix(input, "/admit ") {
        return type_change(member.as_str(), true);
    }
    if let Some(member) = strip_prefix(input, "/remove ") {
        return type_change(member.as_str(), false);
    }
    if let Some(address) = strip_prefix(input, "/connect ") {
        return type_address(address.as_str());
    }
    if let Some(rest) = strip_prefix(input, "/backup ") {
        return type_backup(rest.as_str());
    }
    if let Some(path) = strip_prefix(input, "/attach ") {
        return Typed::Attach(path);
    }
    if same_text(input, "/help") {
        return Typed::Complaint(
            "commands: /name /channel /admit /remove /connect /backup /attach /mute /leave".to_owned(),
        );
    }
    Typed::Complaint("unknown command; use /help".to_owned())
}

/// What is wrong with the fields for a backup.
pub open spec fn backup_objection(
    path: Seq<char>,
    passphrase: Seq<char>,
    confirmation: Seq<char>,
) -> Option<Seq<char>> {
    if trimmed_of(path).len() == 0 {
        Some("choose an identity backup path"@)
    } else if passphrase.len() < MIN_PASSPHRASE_CHARS {
        Some("backup passphrase must contain at least 12 characters"@)
    } else if passphrase != confirmation {
        Some("backup passphrases do not match"@)
    } else {
        None
    }
}

/// The path of a backup, where its fields are in order.
pub fn check_backup(path: &str, passphrase: &str, confirmation: &str) -> (checked: Result<
    String,
    String,
>)
    ensures
        match checked {
            Ok(trimmed) => backup_objection(path@, passphrase@, confirmation@) is None && trimmed@
                == trimmed_of(path@),
            Err(error) => backup_objection(path@, passphrase@, confirmation@) == Some(error@),
        },
{
    let trimmed: String = trim(path);
    if chars_of(trimmed.as_str()).len() == 0 {
        return Err("choose an identity backup path".to_owned());
    }
    if chars_of(passphrase).len() < MIN_PASSPHRASE_CHARS {
        return Err("backup passphrase must contain at least 12 characters".to_owned());
    }
    if !same_text(passphrase, confirmation) {
        return Err("backup passphrases do not match".to_owned());
    }
    Ok(trimmed)
}

proof fn spaces_after(text: Seq<char>, i: int)
    requires
        0 <= i <= text.len(),
    ensures
        i <= after_space(text, i) <= text.len(),
        forall|k: int| i <= k < after_space(text, i) ==> is_white_space(#[trigger] text[k]),
        after_space(text, i) < text.len() ==> !is_white_space(text[after_space(text, i)]),
    decreases text.len() - i,
{
    if i < text.len() && is_white_space(text[i]) {
        spaces_after(text, i + 1);
    }
}

proof fn spaces_before(text: Seq<char>, i: int)
    requires
        0 <= i <= text.len(),
    ensures
        0 <= before_space(text, i) <= i,
        forall|k: int| before_space(text, i) <= k < i ==> is_white_space(#[trigger] text[k]),
        before_space(text, i) > 0 ==> !is_white_space(text[before_space(text, i) - 1]),
    decreases i,
{
    if i > 0 && is_white_space(text[i - 1]) {
        spaces_before(text, i - 1);
    }
}

/// Trimming takes white space from both ends and nothing else: what is left stands in the text as it
/// is, neither starts nor ends with white space, and all around it is white space.
pub proof fn trimming_takes_the_ends(text: Seq<char>)
    ensures
        ({
            let trimmed = trimmed_of(text);
            &&& trimmed.len() > 0 ==> !is_white_space(trimmed[0]) && !is_white_space(trimmed.last())
            &&& trimmed.len() == 0 ==> forall|k: int|
                0 <= k < text.len() ==> is_white_space(#[trigger] text[k])
            &&& trimmed.len() > 0 ==> exists|start: int|
                0 <= start && start + trimmed.len() <= text.len() && #[trigger] text.subrange(
                    start,
                    start + trimmed.len(),
                ) == trimmed && (forall|k: int|
                    0 <= k < start ==> is_white_space(#[trigger] text[k])) && (forall|k: int|
                    start + trimmed.len() <= k < text.len() ==> is_white_space(#[trigger] text[k]))
        }),
{
    spaces_after(text, 0);
    spaces_before(text, text.len() as int);
    let start = after_space(text, 0);
    let end = before_space(text, text.len() as int);
    let trimmed = trimmed_of(text);
    if start < end {
        assert(trimmed.last() == text[end - 1]);
        assert(text.subrange(start, start + trimmed.len()) =~= trimmed);
    } else {
        assert forall|k: int| 0 <= k < text.len() implies is_white_space(#[trigger] text[k]) by {
            if k < start {
            } else {
                assert(end <= k);
            }
        }
    }
}

proof fn what_stands_behind(prefix: Seq<char>, rest: Seq<char>)
    ensures
        behind(prefix + rest, prefix) == Some(rest),
{
    let text = prefix + rest;
    assert(text.take(prefix.len() as int) =~= prefix);
    assert(text.skip(prefix.len() as int) =~= rest);
}

proof fn another_word(text: Seq<char>, prefix: Seq<char>, i: int)
    requires
        0 <= i < text.len(),
        i < prefix.len(),
        text[i] != prefix[i],
    ensures
        behind(text, prefix) is None,
        text != prefix,
{
    if prefix.len() <= text.len() && text.take(prefix.len() as int) == prefix {
        assert(text.take(prefix.len() as int)[i] == text[i]);
    }
}

proof fn words_are_told_apart()
    ensures
        "/leave"@.len() == 6 && "/leave"@[1] == 'l',
        "/mute"@.len() == 5 && "/mute"@[1] == 'm',
        "/name "@.len() == 6 && "/name "@[1] == 'n',
        "/channel "@.len() == 9 && "/channel "@[1] == 'c' && "/channel "@[2] == 'h',
        "/admit "@.len() == 7 && "/admit "@[1] == 'a' && "/admit "@[2] == 'd',
        "/remove "@.len() == 8 && "/remove "@[1] == 'r',
        "/connect "@.len() == 9 && "/connect "@[1] == 'c' && "/connect "@[2] == 'o',
        "/backup "@.len() == 8 && "/backup "@[1] == 'b',
        "/attach "@.len() == 8 && "/attach "@[1] == 'a' && "/attach "@[2] == 't',
{
    reveal_strlit("/leave");
    reveal_strlit("/mute");
    reveal_strlit("/name ");
    reveal_strlit("/channel ");
    reveal_strlit("/admit ");
    reveal_strlit("/remove ");
    reveal_strlit("/connect ");
    reveal_strlit("/backup ");
    reveal_strlit("/attach ");
}

proof fn first_space(text: Seq<char>, i: int, space: int)
    requires
        0 <= i <= space < text.len(),
        text[space] == ' ',
        forall|k: int| i <= k < space ==> #[trigger] text[k] != ' ',
    ensures
        space_from(text, i) == space,
    decreases space - i,
{
    if i < space {
        assert(text[i] != ' ');
        first_space(text, i + 1, space);
    }
}

proof fn parts_of(first: Seq<char>, second: Seq<char>)
    requires
        forall|k: int| 0 <= k < first.len() ==> #[trigger] first[k] != ' ',
    ensures
        parted(first + seq![' '] + second) == Some((first, second)),
{
    let text = first + seq![' '] + second;
    assert forall|k: int| 0 <= k < first.len() implies #[trigger] text[k] != ' ' by {
        assert(text[k] == first[k]);
    }
    first_space(text, 0, first.len() as int);
    assert(text.take(first.len() as int) =~= first);
    assert(text.skip(first.len() as int + 1) =~= second);
}

/// Whoever types `/name` and a name that is in order takes the name, exactly as it was typed.
pub proof fn typed_names_are_taken(name: Seq<char>, id: ChannelId, typed: TypedModel)
    requires
        is_typed("/name "@ + name, id, typed),
    ensures
        display_name_objection(name) is None ==> typed == TypedModel::Name(name),
        display_name_objection(name) is Some ==> typed is Complaint,
{
    let text = "/name "@ + name;
    words_are_told_apart();
    assert(text[1] == 'n');
    another_word(text, "/leave"@, 1);
    another_word(text, "/mute"@, 1);
    what_stands_behind("/name "@, name);
}

/// Whoever types `/channel`, a kind and a name creates a channel of that kind with that name, under
/// the name that it was given.
pub proof fn typed_channels_are_created(
    kind: ChannelKind,
    name: Seq<char>,
    id: ChannelId,
    typed: TypedModel,
)
    requires
        is_typed(
            "/channel "@ + (match kind {
                ChannelKind::Text => "text"@,
                ChannelKind::Voice => "voice"@,
            } + seq![' '] + name),
            id,
            typed,
        ),
    ensures
        channel_objection(name) is None ==> typed == TypedModel::Ask(
            AskModel::CreateChannel(ChannelModel { id, name, kind }),
        ),
        channel_objection(name) is Some ==> typed is Complaint,
{
    let word = match kind {
        ChannelKind::Text => "text"@,
        ChannelKind::Voice => "voice"@,
    };
    let rest = word + seq![' '] + name;
    let text = "/channel "@ + rest;
    words_are_told_apart();
    reveal_strlit("text");
    reveal_strlit("voice");
    assert(text[1] == 'c' && text[2] == 'h');
    another_word(text, "/leave"@, 1);
    another_word(text, "/mute"@, 1);
    another_word(text, "/name "@, 1);
    what_stands_behind("/channel "@, rest);
    parts_of(word, name);
    assert("voice"@[0] == 'v' && "text"@[0] == 't');
}

/// Whoever types `/admit` or `/remove` and the identity of a member asks for just that.
pub proof fn typed_changes_are_asked_for(
    member: MemberId,
    id: ChannelId,
    admitted: TypedModel,
    removed: TypedModel,
)
    requires
        is_typed("/admit "@ + hex(member@), id, admitted),
        is_typed("/remove "@ + hex(member@), id, removed),
    ensures
        admitted == TypedModel::Ask(AskModel::ChangeMembership(MembershipChange::Admit(member))),
        removed == TypedModel::Ask(AskModel::ChangeMembership(MembershipChange::Remove(member))),
{
    let rest = hex(member@);
    let first = "/admit "@ + rest;
    let second = "/remove "@ + rest;
    words_are_told_apart();
    member_hex_reads_back(member);
    assert(first[1] == 'a' && first[2] == 'd' && second[1] == 'r');
    another_word(first, "/leave"@, 1);
    another_word(first, "/mute"@, 1);
    another_word(first, "/name "@, 1);
    another_word(first, "/channel "@, 1);
    what_stands_behind("/admit "@, rest);
    another_word(second, "/leave"@, 1);
    another_word(second, "/mute"@, 1);
    another_word(second, "/name "@, 1);
    another_word(second, "/channel "@, 1);
    another_word(second, "/admit "@, 1);
    what_stands_behind("/remove "@, rest);
    assert(is_change_typed(admitted, rest, true));
    assert(is_change_typed(removed, rest, false));
    match admitted {
        TypedModel::Ask(AskModel::ChangeMembership(MembershipChange::Admit(found))) => {
            assert(found.0 =~= member.0);
        },
        _ => {},
    }
    match removed {
        TypedModel::Ask(AskModel::ChangeMembership(MembershipChange::Remove(found))) => {
            assert(found.0 =~= member.0);
        },
        _ => {},
    }
}

/// Whoever types `/backup`, a path and a passphrase exports its identity there under that
/// passphrase; whoever types `/attach` and a path shares that file.
pub proof fn typed_paths_are_used(
    path: Seq<char>,
    passphrase: Seq<char>,
    id: ChannelId,
    backup: TypedModel,
    attach: TypedModel,
)
    requires
        forall|k: int| 0 <= k < path.len() ==> #[trigger] path[k] != ' ',
        is_typed("/backup "@ + (path + seq![' '] + passphrase), id, backup),
        is_typed("/attach "@ + path, id, attach),
    ensures
        backup == TypedModel::Ask(AskModel::ExportIdentity { path, passphrase }),
        attach == TypedModel::Attach(path),
{
    let rest = path + seq![' '] + passphrase;
    let first = "/backup "@ + rest;
    let second = "/attach "@ + path;
    words_are_told_apart();
    parts_of(path, passphrase);
    assert(first[1] == 'b' && second[1] == 'a' && second[2] == 't');
    another_word(first, "/leave"@, 1);
    another_word(first, "/mute"@, 1);
    another_word(first, "/name "@, 1);
    another_word(first, "/channel "@, 1);
    another_word(first, "/admit "@, 1);
    another_word(first, "/remove "@, 1);
    another_word(first, "/connect "@, 1);
    what_stands_behind("/backup "@, rest);
    another_word(second, "/leave"@, 1);
    another_word(second, "/mute"@, 1);
    another_word(second, "/name "@, 1);
    another_word(second, "/channel "@, 1);
    another_word(second, "/admit "@, 2);
    another_word(second, "/remove "@, 1);
    another_word(second, "/connect "@, 1);
    another_word(second, "/backup "@, 1);
    what_stands_behind("/attach "@, path);
}

/// Whoever types `/connect` and an address connects there.
pub proof fn typed_addresses_are_used(address: Seq<char>, id: ChannelId, typed: TypedModel)
    requires
        is_typed("/connect "@ + address, id, typed),
    ensures
        match endpoint_read(address) {
            Ok((member, encoded)) => typed == TypedModel::Ask(AskModel::Connect { member, encoded }),
            Err(_) => typed is Complaint,
        },
{
    let text = "/connect "@ + address;
    words_are_told_apart();
    assert(text[1] == 'c' && text[2] == 'o');
    another_word(text, "/leave"@, 1);
    another_word(text, "/mute"@, 1);
    another_word(text, "/name "@, 1);
    another_word(text, "/channel "@, 2);
    another_word(text, "/admit "@, 1);
    another_word(text, "/remove "@, 1);
    what_stands_behind("/connect "@, address);
}

proof fn place_is(devices: Seq<Seq<char>>, i: int)
    requires
        0 <= i < devices.len(),
        forall|j: int| 0 <= j < i ==> #[trigger] devices[j] != devices[i],
    ensures
        place_of(devices, devices[i]) == Some(i),
    decreases devices.len(),
{
    if i > 0 {
        assert(devices[0] != devices[i]);
        let rest = devices.drop_first();
        assert forall|j: int| 0 <= j < i - 1 implies #[trigger] rest[j] != rest[i - 1] by {
            assert(rest[j] == devices[j + 1]);
        }
        place_is(rest, i - 1);
        assert(rest[i - 1] == devices[i]);
    }
}

/// Going on from no device leads to the first, from each device to the next, and from the last to
/// none again: so everybody comes by every device.
pub proof fn devices_are_gone_through(devices: Seq<Seq<char>>, i: int)
    requires
        forall|j: int, k: int|
            0 <= j < k < devices.len() ==> #[trigger] devices[j] != #[trigger] devices[k],
        0 <= i < devices.len(),
    ensures
        next_device(None, devices) == Some(devices[0]),
        i + 1 < devices.len() ==> next_device(Some(devices[i]), devices) == Some(devices[i + 1]),
        i + 1 == devices.len() ==> next_device(Some(devices[i]), devices) is None,
{
    place_is(devices, i);
}

/// An identity is exported where there is a path, the passphrase has twelve characters or more, and
/// it was typed twice.
pub proof fn backups_need_a_path_and_a_passphrase(
    path: Seq<char>,
    passphrase: Seq<char>,
    confirmation: Seq<char>,
)
    ensures
        backup_objection(path, passphrase, confirmation) is None <==> trimmed_of(path).len() > 0
            && passphrase.len() >= 12 && passphrase == confirmation,
{
}

} // verus!
