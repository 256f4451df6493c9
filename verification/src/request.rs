//! Requests and their one-line text form.
//!
//! A request travels as a command word followed by its arguments, separated by
//! single spaces. `ClientRequest::emit` writes that line and
//! `ClientRequest::parse` reads it back; `encoded` and `decoded` say what the
//! two compute.
//!
//! Known limits of the grammar, kept as they are:
//! - a line is cut into at most `CLIENTREQUEST_MAX_PARTS` pieces, so a line
//!   never yields the four arguments that `UPDATE_TOPIC` asks for, and the
//!   command is always refused when read from a line;
//! - names are written unescaped, so a name that holds a space does not
//!   survive the trip through a line.

use vstd::prelude::*;
use vstd::string::*;
use crate::text::{
    decimal, first_word_len, lemma_decimal, lemma_first_word_ends_at, lemma_first_word_len,
    lemma_numeral_of_decimal, lemma_split_after_word, lemma_split_spaceless, numeral_value, parse_u64, push_decimal, same_text,
    spaceless, split_line, split_words, texts,
};

verus! {

/// A request line is cut into at most this many pieces.
pub const CLIENTREQUEST_MAX_PARTS: usize = 4;

/// What a client can ask of the server.
#[derive(Debug)]
pub enum ClientRequest {
    GetState {  },
    SwitchTopic { id: u64 },
    CreateTopic { name: String, parent_id: u64 },
    UpdateTopic { id: u64, name: String, parent_id: u64, duration: u64 },
    DeleteTopic { id: u64 },
    Bye {  },
    Terminate {  },
}

/// A request as a mathematical value: names are character sequences.
pub enum RequestView {
    GetState,
    SwitchTopic { id: u64 },
    CreateTopic { name: Seq<char>, parent_id: u64 },
    UpdateTopic { id: u64, name: Seq<char>, parent_id: u64, duration: u64 },
    DeleteTopic { id: u64 },
    Bye,
    Terminate,
}

impl View for ClientRequest {
    type V = RequestView;

    open spec fn view(&self) -> RequestView {
        match *self {
            ClientRequest::GetState {  } => RequestView::GetState,
            ClientRequest::SwitchTopic { id } => RequestView::SwitchTopic { id },
            ClientRequest::CreateTopic { name, parent_id } => RequestView::CreateTopic {
                name: name@,
                parent_id,
            },
            ClientRequest::UpdateTopic {
                id,
                name,
                parent_id,
                duration,
            } => RequestView::UpdateTopic { id, name: name@, parent_id, duration },
            ClientRequest::DeleteTopic { id } => RequestView::DeleteTopic { id },
            ClientRequest::Bye {  } => RequestView::Bye,
            ClientRequest::Terminate {  } => RequestView::Terminate,
        }
    }
}

/// The seven commands of the protocol.
pub enum Command {
    GetState,
    SwitchTopic,
    CreateTopic,
    UpdateTopic,
    DeleteTopic,
    Bye,
    Terminate,
}

/// The word that names a command on the wire.
pub open spec fn keyword(c: Command) -> Seq<char> {
    match c {
        Command::GetState => "GET_STATE"@,
        Command::SwitchTopic => "SWITCH_TOPIC"@,
        Command::CreateTopic => "CREATE_TOPIC"@,
        Command::UpdateTopic => "UPDATE_TOPIC"@,
        Command::DeleteTopic => "DELETE_TOPIC"@,
        Command::Bye => "BYE"@,
        Command::Terminate => "TERMINATE"@,
    }
}

/// How many arguments a command takes, no more and no fewer.
pub open spec fn arity(c: Command) -> nat {
    match c {
        Command::GetState | Command::Bye | Command::Terminate => 0,
        Command::SwitchTopic | Command::DeleteTopic => 1,
        Command::CreateTopic => 2,
        Command::UpdateTopic => 4,
    }
}

/// Whether argument `position` of a command (counted from 1) must be an
/// unsigned 64-bit numeral.
pub open spec fn takes_numeral(c: Command, position: int) -> bool {
    match c {
        Command::SwitchTopic | Command::DeleteTopic => position == 1,
        Command::CreateTopic => position == 2,
        Command::UpdateTopic => position == 1 || position == 3 || position == 4,
        _ => false,
    }
}

/// What the decoder answers when a command gets the wrong number of
/// arguments, `given` of them. `TERMINATE` answers in the words of `BYE`.
pub open spec fn arity_message(c: Command, given: nat) -> Seq<char> {
    match c {
        Command::GetState => "GET_STATE does not take arguments"@,
        Command::Bye | Command::Terminate => "BYE does not take arguments"@,
        Command::SwitchTopic => if given == 0 {
            "SWITCH_TOPIC must be followed by an id"@
        } else {
            "SWITCH_TOPIC takes exactly one argument"@
        },
        Command::DeleteTopic => if given == 0 {
            "DELETE_TOPIC must be followed by an id"@
        } else {
            "DELETE_TOPIC takes exactly one argument"@
        },
        Command::CreateTopic => (
            "CREATE_TOPIC must be followed by exactly two arguments (name and parent id)"
        )@,
        Command::UpdateTopic => (
            "UPDATE_TOPIC must be followed by exactly four arguments (id, name, parent id, duration)"
        )@,
    }
}

/// What the decoder answers when argument `position` of a command should be
/// a numeral and is none.
pub open spec fn numeral_message(c: Command, position: int) -> Seq<char> {
    match c {
        Command::SwitchTopic => "SWITCH_TOPIC argument must be an unsigned integer (u64)"@,
        Command::DeleteTopic => "DELETE_TOPIC argument must be an unsigned integer (u64)"@,
        Command::CreateTopic => "CREATE_TOPIC second argument must be an unsigned integer (u64)"@,
        _ => if position == 1 {
            "UPDATE_TOPIC first argument must be an unsigned integer (u64)"@
        } else if position == 3 {
            "UPDATE_TOPIC third argument must be an unsigned integer (u64)"@
        } else {
            "UPDATE_TOPIC fourth argument must be an unsigned integer (u64)"@
        },
    }
}

/// The command that a word names, if any.
pub open spec fn command_of(word: Seq<char>) -> Option<Command> {
    if word == keyword(Command::GetState) {
        Some(Command::GetState)
    } else if word == keyword(Command::Bye) {
        Some(Command::Bye)
    } else if word == keyword(Command::Terminate) {
        Some(Command::Terminate)
    } else if word == keyword(Command::SwitchTopic) {
        Some(Command::SwitchTopic)
    } else if word == keyword(Command::CreateTopic) {
        Some(Command::CreateTopic)
    } else if word == keyword(Command::UpdateTopic) {
        Some(Command::UpdateTopic)
    } else if word == keyword(Command::DeleteTopic) {
        Some(Command::DeleteTopic)
    } else {
        None
    }
}

/// The request that a command and its arguments make up, once the number of
/// arguments is right: numerals are read in order, and the first that is none
/// decides the error.
pub open spec fn assembled(c: Command, p: Seq<Seq<char>>) -> Result<RequestView, Seq<char>>
    recommends
        p.len() == 1 + arity(c),
{
    match c {
        Command::GetState => Ok(RequestView::GetState),
        Command::Bye => Ok(RequestView::Bye),
        Command::Terminate => Ok(RequestView::Terminate),
        Command::SwitchTopic => match numeral_value(p[1]) {
            Some(id) => Ok(RequestView::SwitchTopic { id }),
            None => Err(numeral_message(c, 1)),
        },
        Command::DeleteTopic => match numeral_value(p[1]) {
            Some(id) => Ok(RequestView::DeleteTopic { id }),
            None => Err(numeral_message(c, 1)),
        },
        Command::CreateTopic => match numeral_value(p[2]) {
            Some(parent_id) => Ok(RequestView::CreateTopic { name: p[1], parent_id }),
            None => Err(numeral_message(c, 2)),
        },
        Command::UpdateTopic => match numeral_value(p[1]) {
            None => Err(numeral_message(c, 1)),
            Some(id) => match numeral_value(p[3]) {
                None => Err(numeral_message(c, 3)),
                Some(parent_id) => match numeral_value(p[4]) {
                    None => Err(numeral_message(c, 4)),
                    Some(duration) => Ok(
                        RequestView::UpdateTopic { id, name: p[2], parent_id, duration },
                    ),
                },
            },
        },
    }
}

/// What a list of pieces decodes to: the first names the command, the others
/// are its arguments.
pub open spec fn decoded_pieces(p: Seq<Seq<char>>) -> Result<RequestView, Seq<char>> {
    if p.len() == 0 {
        Err("empty input"@)
    } else {
        match command_of(p[0]) {
            None => Err("unknown command: "@ + p[0]),
            Some(c) => if p.len() - 1 != arity(c) {
                Err(arity_message(c, (p.len() - 1) as nat))
            } else {
                assembled(c, p)
            },
        }
    }
}

/// What a line decodes to: the request it spells, or the reason why it spells
/// none.
pub open spec fn decoded(line: Seq<char>) -> Result<RequestView, Seq<char>> {
    if line.len() == 0 {
        Err("empty input"@)
    } else {
        decoded_pieces(split_words(line, CLIENTREQUEST_MAX_PARTS as nat))
    }
}

/// The command word and the arguments of a request, numbers in their
/// shortest decimal form.
pub open spec fn words(r: RequestView) -> Seq<Seq<char>> {
    match r {
        RequestView::GetState => seq![keyword(Command::GetState)],
        RequestView::SwitchTopic { id } => seq![keyword(Command::SwitchTopic), decimal(id as nat)],
        RequestView::CreateTopic { name, parent_id } => seq![
            keyword(Command::CreateTopic),
            name,
            decimal(parent_id as nat),
        ],
        RequestView::UpdateTopic { id, name, parent_id, duration } => seq![
            keyword(Command::UpdateTopic),
            decimal(id as nat),
            name,
            decimal(parent_id as nat),
            decimal(duration as nat),
        ],
        RequestView::DeleteTopic { id } => seq![keyword(Command::DeleteTopic), decimal(id as nat)],
        RequestView::Bye => seq![keyword(Command::Bye)],
        RequestView::Terminate => seq![keyword(Command::Terminate)],
    }
}

/// The line of a request: its words with one space between neighbours.
pub open spec fn encoded(r: RequestView) -> Seq<char> {
    let w = words(r);
    let sp = seq![' '];
    match r {
        RequestView::GetState | RequestView::Bye | RequestView::Terminate => w[0],
        RequestView::SwitchTopic { .. } | RequestView::DeleteTopic { .. } => w[0] + sp + w[1],
        RequestView::CreateTopic { .. } => w[0] + sp + w[1] + sp + w[2],
        RequestView::UpdateTopic { .. } => w[0] + sp + w[1] + sp + w[2] + sp + w[3] + sp + w[4],
    }
}

/// The view of what `parse` returns.
pub open spec fn outcome_view(r: Result<ClientRequest, String>) -> Result<RequestView, Seq<char>> {
    match r {
        Ok(request) => Ok(request@),
        Err(reason) => Err(reason@),
    }
}

/// A request whose line decodes to the request again: any but `UpdateTopic`,
/// which no line can carry, and `CreateTopic` with a space in the name.
pub open spec fn survives_a_line(r: RequestView) -> bool {
    match r {
        RequestView::UpdateTopic { .. } => false,
        RequestView::CreateTopic { name, .. } => spaceless(name),
        _ => true,
    }
}

// ---------------------------------------------------------------------------
// Laws
// ---------------------------------------------------------------------------

/// The command words are seven different non-empty spaceless words, and each
/// names its own command.
pub proof fn lemma_keywords(c: Command)
    ensures
        keyword(c).len() > 0,
        spaceless(keyword(c)),
        command_of(keyword(c)) == Some(c),
{
    reveal_strlit("GET_STATE");
    reveal_strlit("SWITCH_TOPIC");
    reveal_strlit("CREATE_TOPIC");
    reveal_strlit("UPDATE_TOPIC");
    reveal_strlit("DELETE_TOPIC");
    reveal_strlit("BYE");
    reveal_strlit("TERMINATE");
    let g = keyword(Command::GetState);
    let s = keyword(Command::SwitchTopic);
    let k = keyword(Command::CreateTopic);
    let u = keyword(Command::UpdateTopic);
    let d = keyword(Command::DeleteTopic);
    let b = keyword(Command::Bye);
    let t = keyword(Command::Terminate);
    assert(g[0] == 'G' && s[0] == 'S' && k[0] == 'C' && u[0] == 'U' && d[0] == 'D' && b[0] == 'B'
        && t[0] == 'T');
}

/// Read as pieces, the words of any request decode to that request.
pub proof fn lemma_words_decode(r: RequestView)
    ensures
        decoded_pieces(words(r)) == Ok::<RequestView, Seq<char>>(r),
{
    match r {
        RequestView::GetState => {
            lemma_keywords(Command::GetState);
        },
        RequestView::SwitchTopic { id } => {
            lemma_keywords(Command::SwitchTopic);
            lemma_numeral_of_decimal(id);
        },
        RequestView::CreateTopic { name, parent_id } => {
            lemma_keywords(Command::CreateTopic);
            lemma_numeral_of_decimal(parent_id);
        },
        RequestView::UpdateTopic { id, name, parent_id, duration } => {
            lemma_keywords(Command::UpdateTopic);
            lemma_numeral_of_decimal(id);
            lemma_numeral_of_decimal(parent_id);
            lemma_numeral_of_decimal(duration);
        },
        RequestView::DeleteTopic { id } => {
            lemma_keywords(Command::DeleteTopic);
            lemma_numeral_of_decimal(id);
        },
        RequestView::Bye => {
            lemma_keywords(Command::Bye);
        },
        RequestView::Terminate => {
            lemma_keywords(Command::Terminate);
        },
    }
}

/// Cutting the line of a request that survives a line gives its words back.
pub proof fn lemma_split_encoded(r: RequestView)
    requires
        survives_a_line(r),
    ensures
        encoded(r).len() > 0,
        split_words(encoded(r), CLIENTREQUEST_MAX_PARTS as nat) == words(r),
{
    let sp = seq![' '];
    let w = words(r);
    match r {
        RequestView::GetState => {
            lemma_keywords(Command::GetState);
            lemma_split_spaceless(w[0], 4);
        },
        RequestView::Bye => {
            lemma_keywords(Command::Bye);
            lemma_split_spaceless(w[0], 4);
        },
        RequestView::Terminate => {
            lemma_keywords(Command::Terminate);
            lemma_split_spaceless(w[0], 4);
        },
        RequestView::SwitchTopic { id } => {
            lemma_keywords(Command::SwitchTopic);
            lemma_decimal(id as nat);
            lemma_split_after_word(w[0], w[1], 4);
            lemma_split_spaceless(w[1], 3);
            assert(seq![w[0]] + seq![w[1]] =~= w);
        },
        RequestView::DeleteTopic { id } => {
            lemma_keywords(Command::DeleteTopic);
            lemma_decimal(id as nat);
            lemma_split_after_word(w[0], w[1], 4);
            lemma_split_spaceless(w[1], 3);
            assert(seq![w[0]] + seq![w[1]] =~= w);
        },
        RequestView::CreateTopic { name, parent_id } => {
            lemma_keywords(Command::CreateTopic);
            lemma_decimal(parent_id as nat);
            let tail = w[1] + sp + w[2];
            assert(encoded(r) =~= w[0] + sp + tail);
            lemma_split_after_word(w[0], tail, 4);
            lemma_split_after_word(w[1], w[2], 3);
            lemma_split_spaceless(w[2], 2);
            assert(seq![w[0]] + (seq![w[1]] + seq![w[2]]) =~= w);
        },
        RequestView::UpdateTopic { .. } => {},
    }
}

/// Round trip: the line of a request decodes to the request, for every
/// request that survives a line.
pub proof fn lemma_round_trip(r: RequestView)
    requires
        survives_a_line(r),
    ensures
        decoded(encoded(r)) == Ok::<RequestView, Seq<char>>(r),
{
    lemma_split_encoded(r);
    lemma_words_decode(r);
}

/// The round trip holds for no other request: the line of a request that
/// does not survive a line is refused.
pub proof fn lemma_round_trip_fails_otherwise(r: RequestView)
    requires
        !survives_a_line(r),
    ensures
        decoded(encoded(r)) is Err,
{
    let limit = CLIENTREQUEST_MAX_PARTS as nat;
    let sp = seq![' '];
    let w = words(r);
    match r {
        RequestView::UpdateTopic { .. } => {
            lemma_keywords(Command::UpdateTopic);
            // The line has more words than it is cut into pieces.
            let tail = w[1] + sp + w[2] + sp + w[3] + sp + w[4];
            assert(encoded(r) =~= w[0] + sp + tail);
            lemma_split_after_word(w[0], tail, limit);
            lemma_split_count(tail, 3);
        },
        RequestView::CreateTopic { name, parent_id } => {
            lemma_keywords(Command::CreateTopic);
            // The space in the name ends a piece of its own, so that the
            // command gets three arguments.
            let tail = name + sp + w[2];
            assert(encoded(r) =~= w[0] + sp + tail);
            lemma_split_after_word(w[0], tail, limit);
            lemma_first_word_len(name);
            let f = first_word_len(name);
            assert(f < name.len() && name[f] == ' ');
            assert forall|i: int| 0 <= i < f implies tail[i] != ' ' by {
                assert(name.take(f)[i] == tail[i]);
            }
            assert(tail[f] == ' ');
            lemma_first_word_ends_at(tail, f);
            let rest = tail.skip(f + 1);
            lemma_first_word_len(rest);
            assert(rest[name.len() - f - 1] == ' ');
            let g = first_word_len(rest);
            assert(g < rest.len());
            assert(split_words(rest.skip(g + 1), 1) == seq![rest.skip(g + 1)]);
            assert(split_words(rest, 2).len() == 2);
            assert(split_words(tail, 3).len() == 3);
            assert(split_words(encoded(r), limit).len() == 4);
        },
        _ => {},
    }
}

/// A command with the wrong number of arguments is refused, for every
/// command and every list of pieces.
pub proof fn lemma_wrong_arity_is_refused(c: Command, p: Seq<Seq<char>>)
    requires
        p.len() >= 1,
        p[0] == keyword(c),
        p.len() - 1 != arity(c),
    ensures
        decoded_pieces(p) == Err::<RequestView, Seq<char>>(
            arity_message(c, (p.len() - 1) as nat),
        ),
{
    lemma_keywords(c);
}

/// The same for lines: a line whose first word names a command, and whose
/// count of further pieces is not that command's arity, is refused.
pub proof fn lemma_line_with_wrong_arity_is_refused(c: Command, line: Seq<char>)
    requires
        line.len() > 0,
        split_words(line, CLIENTREQUEST_MAX_PARTS as nat)[0] == keyword(c),
        split_words(line, CLIENTREQUEST_MAX_PARTS as nat).len() - 1 != arity(c),
    ensures
        decoded(line) is Err,
{
    let p = split_words(line, CLIENTREQUEST_MAX_PARTS as nat);
    lemma_split_count(line, CLIENTREQUEST_MAX_PARTS as nat);
    lemma_wrong_arity_is_refused(c, p);
}

/// A line gives between one piece and `limit` pieces.
pub proof fn lemma_split_count(s: Seq<char>, limit: nat)
    requires
        limit >= 1,
    ensures
        1 <= split_words(s, limit).len() <= limit,
    decreases limit,
{
    if limit == 1 || first_word_len(s) == s.len() {
    } else {
        lemma_split_count(s.skip(first_word_len(s) + 1), (limit - 1) as nat);
    }
}

/// No line decodes to an `UpdateTopic` request: a line has at most three
/// arguments, and the command takes four.
pub proof fn lemma_no_line_updates_a_topic(line: Seq<char>)
    ensures
        !(decoded(line) matches Ok(RequestView::UpdateTopic { .. })),
{
    if line.len() > 0 {
        let p = split_words(line, CLIENTREQUEST_MAX_PARTS as nat);
        lemma_split_count(line, CLIENTREQUEST_MAX_PARTS as nat);
    }
}

/// An argument that should be a numeral and is none is refused with the
/// message of its command and position, provided the numerals in front of it
/// are in order.
pub proof fn lemma_bad_numeral_is_refused(c: Command, p: Seq<Seq<char>>, position: int)
    requires
        p.len() >= 1,
        p[0] == keyword(c),
        p.len() - 1 == arity(c),
        takes_numeral(c, position),
        numeral_value(p[position]) is None,
        forall|j: int| 1 <= j < position && takes_numeral(c, j) ==> numeral_value(p[j]) is Some,
    ensures
        decoded_pieces(p) == Err::<RequestView, Seq<char>>(numeral_message(c, position)),
{
    lemma_keywords(c);
    if c is UpdateTopic {
        if position >= 3 {
            assert(takes_numeral(c, 1));
        }
        if position == 4 {
            assert(takes_numeral(c, 3));
        }
    }
}

/// The same for lines: where the pieces of a line name a command, are as many
/// as it takes, and hold something else where a numeral should be, the line
/// is refused with the message of the command and the position.
pub proof fn lemma_line_with_bad_numeral_is_refused(c: Command, line: Seq<char>, position: int)
    requires
        line.len() > 0,
        ({
            let p = split_words(line, CLIENTREQUEST_MAX_PARTS as nat);
            &&& p[0] == keyword(c)
            &&& p.len() - 1 == arity(c)
            &&& takes_numeral(c, position)
            &&& numeral_value(p[position]) is None
            &&& forall|j: int|
                1 <= j < position && takes_numeral(c, j) ==> numeral_value(p[j]) is Some
        }),
    ensures
        decoded(line) == Err::<RequestView, Seq<char>>(numeral_message(c, position)),
{
    let p = split_words(line, CLIENTREQUEST_MAX_PARTS as nat);
    lemma_split_count(line, CLIENTREQUEST_MAX_PARTS as nat);
    lemma_bad_numeral_is_refused(c, p, position);
}

// ---------------------------------------------------------------------------
// Executable codec
// ---------------------------------------------------------------------------

/// A refusal with the given reason.
fn refuse(reason: &str) -> (r: Result<ClientRequest, String>)
    ensures
        outcome_view(r) == Err::<RequestView, Seq<char>>(reason@),
{
    Err(String::from_str(reason))
}

impl ClientRequest {
    /// Writes the request as one line: the command word, then the arguments
    /// separated by single spaces, numbers in decimal. Names are written as
    /// they are.
    pub fn emit(&self) -> (line: String)
        ensures
            line@ == encoded(self@),
    {
        match self {
            ClientRequest::GetState {  } => String::from_str("GET_STATE"),
            ClientRequest::SwitchTopic { id } => {
                let mut line = String::from_str("SWITCH_TOPIC");
                push_space(&mut line);
                push_decimal(&mut line, *id);
                line
            },
            ClientRequest::CreateTopic { name, parent_id } => {
                let mut line = String::from_str("CREATE_TOPIC");
                push_space(&mut line);
                line.append(name.as_str());
                push_space(&mut line);
                push_decimal(&mut line, *parent_id);
                line
            },
            ClientRequest::UpdateTopic { id, name, parent_id, duration } => {
                let mut line = String::from_str("UPDATE_TOPIC");
                push_space(&mut line);
                push_decimal(&mut line, *id);
                push_space(&mut line);
                line.append(name.as_str());
                push_space(&mut line);
                push_decimal(&mut line, *parent_id);
                push_space(&mut line);
                push_decimal(&mut line, *duration);
                line
            },
            ClientRequest::DeleteTopic { id } => {
                let mut line = String::from_str("DELETE_TOPIC");
                push_space(&mut line);
                push_decimal(&mut line, *id);
                line
            },
            ClientRequest::Bye {  } => String::from_str("BYE"),
            ClientRequest::Terminate {  } => String::from_str("TERMINATE"),
        }
    }

    /// Reads one line. The line is cut at single spaces into at most
    /// `CLIENTREQUEST_MAX_PARTS` pieces; the first piece names the command and
    /// the others are its arguments. The error is the reason for the refusal,
    /// in words.
    pub fn parse(input: &str) -> (result: Result<ClientRequest, String>)
        ensures
            outcome_view(result) == decoded(input@),
    {
        if input.unicode_len() == 0 {
            return refuse("empty input");
        }
        let pieces = split_line(input, CLIENTREQUEST_MAX_PARTS);
        ClientRequest::from_pieces(&pieces)
    }

    /// Reads a request from a line that is already cut into pieces: the
    /// command word first, then one piece for each argument.
    pub fn from_pieces(pieces: &Vec<&str>) -> (result: Result<ClientRequest, String>)
        ensures
            outcome_view(result) == decoded_pieces(texts(pieces@)),
    {
        let count = pieces.len();
        if count == 0 {
            return refuse("empty input");
        }
        let ghost p = texts(pieces@);
        let command = pieces[0];
        assert(p[0] == command@);
        if same_text(command, "GET_STATE") {
            if count > 1 {
                return refuse("GET_STATE does not take arguments");
            }
            Ok(ClientRequest::GetState {  })
        } else if same_text(command, "BYE") {
            if count > 1 {
                return refuse("BYE does not take arguments");
            }
            Ok(ClientRequest::Bye {  })
        } else if same_text(command, "TERMINATE") {
            if count > 1 {
                return refuse("BYE does not take arguments");
            }
            Ok(ClientRequest::Terminate {  })
        } else if same_text(command, "SWITCH_TOPIC") {
            if count < 2 {
                return refuse("SWITCH_TOPIC must be followed by an id");
            }
            if count > 2 {
                return refuse("SWITCH_TOPIC takes exactly one argument");
            }
            assert(p[1] == pieces[1]@);
            match parse_u64(pieces[1]) {
                Some(id) => Ok(ClientRequest::SwitchTopic { id }),
                None => refuse("SWITCH_TOPIC argument must be an unsigned integer (u64)"),
            }
        } else if same_text(command, "CREATE_TOPIC") {
            if count != 3 {
                return refuse(
                    "CREATE_TOPIC must be followed by exactly two arguments (name and parent id)",
                );
            }
            assert(p[1] == pieces[1]@ && p[2] == pieces[2]@);
            match parse_u64(pieces[2]) {
                Some(parent_id) => Ok(
                    ClientRequest::CreateTopic { name: String::from_str(pieces[1]), parent_id },
                ),
                None => refuse("CREATE_TOPIC second argument must be an unsigned integer (u64)"),
            }
        } else if same_text(command, "UPDATE_TOPIC") {
            if count != 5 {
                return refuse(
                    "UPDATE_TOPIC must be followed by exactly four arguments (id, name, parent id, duration)",
                );
            }
            assert(p[1] == pieces[1]@ && p[2] == pieces[2]@ && p[3] == pieces[3]@ && p[4]
                == pieces[4]@);
            let id = match parse_u64(pieces[1]) {
                Some(id) => id,
                None => {
                    return refuse("UPDATE_TOPIC first argument must be an unsigned integer (u64)");
                },
            };
            let parent_id = match parse_u64(pieces[3]) {
                Some(parent_id) => parent_id,
                None => {
                    return refuse("UPDATE_TOPIC third argument must be an unsigned integer (u64)");
                },
            };
            let duration = match parse_u64(pieces[4]) {
                Some(duration) => duration,
                None => {
                    return refuse(
                        "UPDATE_TOPIC fourth argument must be an unsigned integer (u64)",
                    );
                },
            };
            let name = String::from_str(pieces[2]);
            Ok(ClientRequest::UpdateTopic { id, name, parent_id, duration })
        } else if same_text(command, "DELETE_TOPIC") {
            if count < 2 {
                return refuse("DELETE_TOPIC must be followed by an id");
            }
            if count > 2 {
                return refuse("DELETE_TOPIC takes exactly one argument");
            }
            assert(p[1] == pieces[1]@);
            match parse_u64(pieces[1]) {
                Some(id) => Ok(ClientRequest::DeleteTopic { id }),
                None => refuse("DELETE_TOPIC argument must be an unsigned integer (u64)"),
            }
        } else {
            let reason = String::from_str("unknown command: ").concat(command);
            Err(reason)
        }
    }
}

/// Appends one space.
fn push_space(out: &mut String)
    ensures
        final(out)@ == old(out)@ + seq![' '],
{
    proof {
        reveal_strlit(" ");
    }
    out.append(" ");
    assert(out@ =~= old(out)@ + seq![' ']);
}

} // verus!
