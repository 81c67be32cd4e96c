//! The command line of the server's operator.
//!
//! - `@user text` sends a text to one user;
//! - `/list` lists the users who are connected;
//! - anything else goes to everybody.
use vstd::prelude::*;

use crate::message::Message;
use crate::text::{chars_of, cut_white, same_text, trim};
use crate::text_map::TextMap;

verus! {

/// What the operator wants.
#[verifier::ext_equal]
pub enum AdminCommand {
    /// Nothing: the line is blank.
    Nothing,
    /// A list of the users.
    List,
    /// To send a text to a user.
    Direct { user: Seq<char>, text: Seq<char> },
    /// To send something to a user, without a text.
    NoText,
    /// To send an empty text to a user.
    EmptyText,
    /// To send a text to everybody.
    Broadcast { text: Seq<char> },
}

/// What a line of the operator means.
pub open spec fn admin_command(line: Seq<char>) -> AdminCommand {
    let t = crate::text::trimmed(line);
    if t.len() == 0 {
        AdminCommand::Nothing
    } else if t == "/list"@ {
        AdminCommand::List
    } else if t[0] == '@' {
        match crate::text::cut(t.skip(1), |c: char| crate::text::is_white(c)) {
            None => AdminCommand::NoText,
            Some(parts) => {
                let text = crate::text::trimmed(parts.1);
                if text.len() == 0 {
                    AdminCommand::EmptyText
                } else {
                    AdminCommand::Direct { user: parts.0, text }
                }
            },
        }
    } else {
        AdminCommand::Broadcast { text: t }
    }
}

/// What to do for the operator.
pub enum AdminAction {
    /// Nothing.
    Skip,
    /// Print a line.
    Print { line: String },
    /// Print the users who are connected.
    List { users: Vec<String> },
    /// Send a message on the connection of a user.
    Deliver { id: u64, user: String, msg: Message },
    /// Send a text to everybody, with this sender, and print how many there are.
    Broadcast { from: String, text: String, clients: usize },
}

/// The message to a user from the operator.
pub open spec fn operator_message(text: Seq<char>) -> crate::message::MessageView {
    crate::message::MessageView::ChatFromServer { from: Some("SERVER"@), text }
}

/// Whether an action is what a command asks for, with these users connected.
pub open spec fn carries_out(
    command: AdminCommand,
    sinks: Map<Seq<char>, u64>,
    action: AdminAction,
) -> bool {
    match command {
        AdminCommand::Nothing => action is Skip,
        AdminCommand::List => if sinks.len() == 0 {
            action matches AdminAction::Print { line } && line@ == "(no users connected)"@
        } else {
            &&& action matches AdminAction::List { users }
            &&& crate::text::texts(users@).no_duplicates()
            &&& crate::text::texts(users@).to_set() == sinks.dom()
        },
        AdminCommand::NoText => action matches AdminAction::Print { line } && line@
            == "use: @user text"@,
        AdminCommand::EmptyText => action matches AdminAction::Print { line } && line@
            == "empty message"@,
        AdminCommand::Direct { user, text } => if sinks.contains_key(user) {
            &&& action matches AdminAction::Deliver { id, user: name, msg }
            &&& id == sinks[user]
            &&& name@ == user
            &&& msg@ == operator_message(text)
        } else {
            &&& action matches AdminAction::Print { line }
            &&& line@ == "user '"@ + user + "' not connected"@
        },
        AdminCommand::Broadcast { text } => {
            &&& action matches AdminAction::Broadcast { from, text: t, clients }
            &&& from@ == "SERVER"@
            &&& t@ == text
            &&& clients == sinks.len()
        },
    }
}

fn print(line: &str) -> (r: AdminAction)
    ensures
        r matches AdminAction::Print { line: l } && l@ == line@,
{
    AdminAction::Print { line: line.to_owned() }
}

/// Takes a line of the operator in.
pub fn admin_line(sinks: &TextMap<u64>, line: &str) -> (r: AdminAction)
    ensures
        carries_out(admin_command(line@), sinks@, r),
{
    let trimmed = trim(line);
    let cs = chars_of(trimmed);
    if cs.len() == 0 {
        return AdminAction::Skip;
    }
    if same_text(trimmed, "/list") {
        if sinks.len() == 0 {
            return print("(no users connected)");
        }
        return AdminAction::List { users: sinks.keys() };
    }
    if cs[0] == '@' {
        let rest = trimmed.substring_char(1, cs.len());
        assert(rest@ =~= trimmed@.skip(1));
        return match cut_white(rest) {
            None => print("use: @user text"),
            Some((user, text)) => {
                let text = trim(text);
                if text.is_empty() {
                    print("empty message")
                } else {
                    direct(sinks, user, text)
                }
            },
        };
    }
    AdminAction::Broadcast {
        from: "SERVER".to_owned(),
        text: trimmed.to_owned(),
        clients: sinks.len(),
    }
}

fn direct(sinks: &TextMap<u64>, user: &str, text: &str) -> (r: AdminAction)
    ensures
        carries_out(AdminCommand::Direct { user: user@, text: text@ }, sinks@, r),
{
    match sinks.get(user) {
        Some(id) => AdminAction::Deliver {
            id: *id,
            user: user.to_owned(),
            msg: Message::ChatFromServer {
                from: Some("SERVER".to_owned()),
                text: text.to_owned(),
            },
        },
        None => {
            let mut line = String::new();
            line.append("user '");
            line.append(user);
            line.append("' not connected");
            assert(line@ =~= "user '"@ + user@ + "' not connected"@);
            AdminAction::Print { line }
        },
    }
}

/// A text that is sent to a user is never empty: a line without one is answered
/// with how to write it.
pub proof fn law_no_empty_direct_text(line: Seq<char>)
    ensures
        admin_command(line) !is EmptyText,
        admin_command(line) matches AdminCommand::Direct { text, .. } ==> text.len() > 0,
        admin_command(line) matches AdminCommand::Broadcast { text } ==> text.len() > 0,
{
    let t = crate::text::trimmed(line);
    if t.len() > 0 && t != "/list"@ && t[0] == '@' {
        let rest = t.skip(1);
        let white = |c: char| crate::text::is_white(c);
        crate::text::lemma_first_match(rest, white);
        match crate::text::cut(rest, white) {
            None => {},
            Some(parts) => {
                let i = crate::text::first_match(rest, white) as int;
                crate::text::lemma_trimmed_ends(line);
                assert(rest[i] == t[i + 1]);
                assert(i + 2 < t.len()) by {
                    if i + 2 == t.len() {
                        assert(t.last() == rest[i]);
                    }
                }
                assert(parts.1.len() > 0);
                assert(parts.1.last() == t.last());
                crate::text::lemma_trimmed_keeps(parts.1);
            },
        }
    }
}

/// What the operator's lines mean. A blank line means nothing, and no other does. `/list`
/// asks for the users. A line that begins with `@` is for the user whose name runs up to
/// the first white space, with the text behind it. Every other line goes to everybody, as
/// it is. White space around a line does not count.
pub proof fn law_operator_lines(
    before: Seq<char>,
    t: Seq<char>,
    after: Seq<char>,
    user: Seq<char>,
    space: char,
    text: Seq<char>,
)
    requires
        crate::text::blank(before),
        crate::text::tight(t),
        crate::text::blank(after),
        crate::text::solid(user),
        crate::text::is_white(space),
    ensures
        ({
            let command = admin_command(before + t + after);
            &&& command is Nothing <==> t.len() == 0
            &&& command is List <==> t == "/list"@
            &&& t.len() > 0 && t != "/list"@ && t[0] != '@' ==> command == (
            AdminCommand::Broadcast { text: t })
            &&& t == seq!['@'] + user ==> command is NoText
            &&& t == seq!['@'] + user + seq![space] + text && crate::text::trimmed(text).len() > 0
                ==> command == (AdminCommand::Direct { user, text: crate::text::trimmed(text) })
        }),
{
    crate::text::law_trimming(before, t, after);
    reveal_strlit("/list");
    assert("/list"@[0] == '/');
    let white = |c: char| crate::text::is_white(c);
    assert(forall|i: int| 0 <= i < user.len() ==> !white(#[trigger] user[i]));
    crate::text::law_cut(user, space, text, white);
    if t == seq!['@'] + user {
        assert(t.skip(1) =~= user);
        assert(t[0] == '@');
    }
    if t == seq!['@'] + user + seq![space] + text {
        assert(t.skip(1) =~= user + seq![space] + text);
        assert(t[0] == '@');
    }
}

/// What comes of the operator's wishes, whoever is connected: a text to everybody goes
/// out as it is, from the server, with the number of those who are connected; a text to
/// one goes over that user's connection, from the server, and to nobody else; where the
/// user is not connected, or nothing is to be sent, the operator is told.
pub proof fn law_operator_is_obeyed(
    command: AdminCommand,
    sinks: Map<Seq<char>, u64>,
    action: AdminAction,
)
    requires
        carries_out(command, sinks, action),
    ensures
        command is Nothing <==> action is Skip,
        command is Broadcast ==> {
            &&& action is Broadcast
            &&& action->Broadcast_from@ == "SERVER"@
            &&& action->Broadcast_text@ == command->Broadcast_text
            &&& action->Broadcast_clients == sinks.len()
        },
        action is Broadcast ==> command is Broadcast,
        action is Deliver <==> command is Direct && sinks.contains_key(command->Direct_user),
        action is Deliver ==> {
            &&& action->Deliver_id == sinks[command->Direct_user]
            &&& action->Deliver_user@ == command->Direct_user
            &&& action->Deliver_msg@ == (crate::message::MessageView::ChatFromServer {
                from: Some("SERVER"@),
                text: command->Direct_text,
            })
        },
        command is Direct && !sinks.contains_key(command->Direct_user) ==> action is Print
            && action->line@ == "user '"@ + command->Direct_user + "' not connected"@,
        command is NoText ==> action is Print && action->line@ == "use: @user text"@,
        command is EmptyText ==> action is Print && action->line@ == "empty message"@,
        command is List && sinks.len() == 0 ==> action is Print && action->line@
            == "(no users connected)"@,
        command is List && sinks.len() != 0 ==> action is List && (forall|user: Seq<char>|
            #[trigger]
            sinks.contains_key(user) <==> crate::text::texts(action->users@).contains(user))
            && crate::text::texts(action->users@).no_duplicates(),
{
    if command is List && sinks.len() != 0 {
        let users = crate::text::texts(action->users@);
        assert forall|user: Seq<char>| #[trigger] sinks.contains_key(user) <==> users.contains(
            user,
        ) by {
            assert(users.to_set().contains(user) <==> sinks.dom().contains(user));
        }
    }
}

} // verus!
