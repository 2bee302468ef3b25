//! Parsing commit messages and branch names into structured, ticket-linked
//! messages, and rendering them back to canonical text.
//!
//! Two grammars are recognised. A free-text message has the shape
//! `[kind: ][team-id ]body`; a branch name has the shape
//! `[kind/ or kind-]team-id[-trailing]`. A kind token is `feat`, `fix` or
//! `chore`; a team is a non-empty run of word characters; an id is a non-empty
//! run of decimal digits.

use vstd::prelude::*;
use crate::text::{
    CharClass, is_word_char, run_len, lemma_run_len, lemma_run_len_exact, scan_run, str_eq,
};
use crate::digits::{
    digits_val, dec_str, lemma_dec_str_digits, lemma_digits_val_dec_str, u32_from_digits,
    u32_digits,
};

verus! {

/// A kind token was present but is not one of the recognised tokens.
#[derive(Debug)]
pub enum MessageKindError {
    InvalidKind,
}

/// Why a message or branch failed to parse.
#[derive(Debug)]
pub enum MessageError {
    /// The input did not contain a syntactically complete `team-id` pair in
    /// the position the grammar demands.
    InvalidCommitMessage,
    /// A branch name carried an explicit kind token that is not recognised.
    InvalidKind(MessageKindError),
}

/// The work-item category of a change.
#[derive(Debug, Clone, Copy)]
pub enum MessageKind {
    Feature,
    Fix,
    Chore,
}

/// A team code plus a numeric ticket id, rendered as `team-id`.
#[derive(Debug)]
pub struct StoryId {
    pub team: String,
    pub id: u32,
}

/// A structured commit message: a kind, a story reference and a free-text
/// body, rendered as `kind: team-id body`.
#[derive(Debug)]
pub struct Message {
    pub kind: MessageKind,
    pub story: StoryId,
    pub body: String,
}

/// The canonical text token of a kind.
pub open spec fn kind_token(k: MessageKind) -> Seq<char> {
    match k {
        MessageKind::Feature => seq!['f', 'e', 'a', 't'],
        MessageKind::Fix => seq!['f', 'i', 'x'],
        MessageKind::Chore => seq!['c', 'h', 'o', 'r', 'e'],
    }
}

/// The kind a token resolves to, if any.
pub open spec fn kind_of_token(t: Seq<char>) -> Option<MessageKind> {
    if t == kind_token(MessageKind::Feature) {
        Some(MessageKind::Feature)
    } else if t == kind_token(MessageKind::Fix) {
        Some(MessageKind::Fix)
    } else if t == kind_token(MessageKind::Chore) {
        Some(MessageKind::Chore)
    } else {
        None
    }
}

/// The resolved kind, or `fallback` where none resolved.
pub open spec fn resolved_or(k: Option<MessageKind>, fallback: MessageKind) -> MessageKind {
    match k {
        Some(k) => k,
        None => fallback,
    }
}

// ---------------------------------------------------------------------------
// The message grammar: `[kind: ][team-id ]body`.
// ---------------------------------------------------------------------------

/// End of the leading word run: where a kind token would stop.
pub open spec fn msg_kind_end(s: Seq<char>) -> int {
    run_len(s, 0, CharClass::Word)
}

/// A kind prefix is present: a non-empty word run followed by a colon.
pub open spec fn msg_has_kind(s: Seq<char>) -> bool {
    0 < msg_kind_end(s) < s.len() && s[msg_kind_end(s)] == ':'
}

/// The kind token of the prefix (meaningful only when `msg_has_kind`).
pub open spec fn msg_kind_tok(s: Seq<char>) -> Seq<char> {
    s.subrange(0, msg_kind_end(s))
}

/// Where the `team-id` pair would start: after the kind prefix and the run of
/// spaces that follows its colon, or at the very beginning.
pub open spec fn msg_story_start(s: Seq<char>) -> int {
    if msg_has_kind(s) {
        let p = msg_kind_end(s) + 1;
        p + run_len(s, p, CharClass::Space)
    } else {
        0
    }
}

pub open spec fn msg_team_end(s: Seq<char>) -> int {
    msg_story_start(s) + run_len(s, msg_story_start(s), CharClass::Word)
}

pub open spec fn msg_digits_start(s: Seq<char>) -> int {
    msg_team_end(s) + 1
}

pub open spec fn msg_digits_end(s: Seq<char>) -> int {
    msg_digits_start(s) + run_len(s, msg_digits_start(s), CharClass::Digit)
}

/// A syntactically complete `team-id ` pair stands where the grammar demands
/// it: a non-empty word run, a dash, a non-empty digit run, and at least one
/// space before the body.
pub open spec fn msg_has_story(s: Seq<char>) -> bool {
    &&& msg_team_end(s) > msg_story_start(s)
    &&& msg_team_end(s) < s.len()
    &&& s[msg_team_end(s)] == '-'
    &&& msg_digits_end(s) > msg_digits_start(s)
    &&& msg_digits_end(s) < s.len()
    &&& s[msg_digits_end(s)] == ' '
}

/// The body: everything after the spaces that follow the id.
pub open spec fn msg_body_start(s: Seq<char>) -> int {
    msg_digits_end(s) + run_len(s, msg_digits_end(s), CharClass::Space)
}

pub open spec fn msg_team(s: Seq<char>) -> Seq<char> {
    s.subrange(msg_story_start(s), msg_team_end(s))
}

pub open spec fn msg_digits(s: Seq<char>) -> Seq<char> {
    s.subrange(msg_digits_start(s), msg_digits_end(s))
}

pub open spec fn msg_body(s: Seq<char>) -> Seq<char> {
    s.subrange(msg_body_start(s), s.len() as int)
}

/// The message grammar accepts `s`: a complete `team-id ` pair is present and
/// its id fits the id type.
pub open spec fn msg_ok(s: Seq<char>) -> bool {
    msg_has_story(s) && digits_val(msg_digits(s)) <= u32::MAX
}

/// The kind a parsed message carries: a recognised kind prefix wins; an
/// absent or unrecognised prefix falls back to the caller's default, and
/// failing that to `Feature`.
pub open spec fn msg_kind_choice(s: Seq<char>, default_kind: Option<MessageKind>) -> MessageKind {
    let fallback = resolved_or(default_kind, MessageKind::Feature);
    if msg_has_kind(s) {
        resolved_or(kind_of_token(msg_kind_tok(s)), fallback)
    } else {
        fallback
    }
}

/// The fields a message parsed from `s` must carry.
pub open spec fn msg_fields(s: Seq<char>, default_kind: Option<MessageKind>, m: Message) -> bool {
    &&& m.kind == msg_kind_choice(s, default_kind)
    &&& m.story.team@ == msg_team(s)
    &&& m.story.id as nat == digits_val(msg_digits(s))
    &&& m.body@ == msg_body(s)
}

// ---------------------------------------------------------------------------
// The branch grammar: `[kind/ or kind-]team-id[-trailing]`.
// ---------------------------------------------------------------------------

/// End of the leading word run of a branch name.
pub open spec fn br_w0(s: Seq<char>) -> int {
    run_len(s, 0, CharClass::Word)
}

/// A `team-id` pair stands at position `p`: a non-empty word run, a dash and
/// at least one digit (trailing text is free).
pub open spec fn br_story_at(s: Seq<char>, p: int) -> bool {
    let te = p + run_len(s, p, CharClass::Word);
    &&& te > p
    &&& te < s.len()
    &&& s[te] == '-'
    &&& run_len(s, te + 1, CharClass::Digit) > 0
}

/// The branch reads as `kind/team-id...` or `kind-team-id...`: a non-empty
/// word run, a slash or dash, then a complete `team-id` pair. This reading
/// is preferred over the plain one below.
pub open spec fn br_kinded(s: Seq<char>) -> bool {
    &&& 0 < br_w0(s) < s.len()
    &&& (s[br_w0(s)] == '/' || s[br_w0(s)] == '-')
    &&& br_story_at(s, br_w0(s) + 1)
}

/// The branch matches the grammar one way or the other.
pub open spec fn br_matches(s: Seq<char>) -> bool {
    br_kinded(s) || br_story_at(s, 0)
}

/// Where the `team-id` pair stands.
pub open spec fn br_story_pos(s: Seq<char>) -> int {
    if br_kinded(s) {
        br_w0(s) + 1
    } else {
        0
    }
}

pub open spec fn br_team_end(s: Seq<char>) -> int {
    br_story_pos(s) + run_len(s, br_story_pos(s), CharClass::Word)
}

pub open spec fn br_team(s: Seq<char>) -> Seq<char> {
    s.subrange(br_story_pos(s), br_team_end(s))
}

pub open spec fn br_digits(s: Seq<char>) -> Seq<char> {
    s.subrange(
        br_team_end(s) + 1,
        br_team_end(s) + 1 + run_len(s, br_team_end(s) + 1, CharClass::Digit),
    )
}

/// The explicit kind token of a kinded branch.
pub open spec fn br_kind_tok(s: Seq<char>) -> Seq<char> {
    s.subrange(0, br_w0(s))
}

/// The kind a parsed branch carries. A forced kind overrides an explicit
/// token; an explicit token without a force must resolve; an absent token
/// means `Feature`, whatever the force.
pub open spec fn br_kind_result(s: Seq<char>, force_kind: Option<MessageKind>) -> Option<
    MessageKind,
> {
    if br_kinded(s) {
        match force_kind {
            Some(f) => Some(f),
            None => kind_of_token(br_kind_tok(s)),
        }
    } else {
        Some(MessageKind::Feature)
    }
}

/// The branch grammar accepts `s` under `force_kind`.
pub open spec fn br_ok(s: Seq<char>, force_kind: Option<MessageKind>) -> bool {
    &&& br_matches(s)
    &&& digits_val(br_digits(s)) <= u32::MAX
    &&& br_kind_result(s, force_kind) is Some
}

/// The error a failing branch parse reports: a shape or id failure comes
/// before kind resolution.
pub open spec fn br_error(s: Seq<char>, force_kind: Option<MessageKind>) -> MessageError {
    if !br_matches(s) || digits_val(br_digits(s)) > u32::MAX {
        MessageError::InvalidCommitMessage
    } else {
        MessageError::InvalidKind(MessageKindError::InvalidKind)
    }
}

/// The kind and story a message parsed from branch `s` must carry.
pub open spec fn br_fields(s: Seq<char>, force_kind: Option<MessageKind>, m: Message) -> bool {
    &&& Some(m.kind) == br_kind_result(s, force_kind)
    &&& m.story.team@ == br_team(s)
    &&& m.story.id as nat == digits_val(br_digits(s))
}

// ---------------------------------------------------------------------------
// Rendering.
// ---------------------------------------------------------------------------

/// Canonical text of a story reference: `team-id`.
pub open spec fn story_text(st: StoryId) -> Seq<char> {
    st.team@ + seq!['-'] + dec_str(st.id as nat)
}

/// Canonical text of a message: `kind: team-id body` (with a trailing space
/// when the body is empty).
pub open spec fn message_text(m: Message) -> Seq<char> {
    kind_token(m.kind) + seq![':', ' '] + story_text(m.story) + seq![' '] + m.body@
}

impl MessageKind {
    /// Resolves a token to its kind; any other token is invalid. Callers
    /// treat an empty token as "kind absent" before resolving.
    pub fn new(kind: &str) -> (r: Result<MessageKind, MessageKindError>)
        ensures
            match r {
                Ok(k) => kind_of_token(kind@) == Some(k),
                Err(e) => kind_of_token(kind@) is None && e == MessageKindError::InvalidKind,
            },
    {
        proof {
            reveal_strlit("feat");
            reveal_strlit("fix");
            reveal_strlit("chore");
            assert("feat"@ =~= kind_token(MessageKind::Feature));
            assert("fix"@ =~= kind_token(MessageKind::Fix));
            assert("chore"@ =~= kind_token(MessageKind::Chore));
        }
        if str_eq(kind, "feat") {
            Ok(MessageKind::Feature)
        } else if str_eq(kind, "fix") {
            Ok(MessageKind::Fix)
        } else if str_eq(kind, "chore") {
            Ok(MessageKind::Chore)
        } else {
            Err(MessageKindError::InvalidKind)
        }
    }

    /// The canonical token of this kind.
    pub fn token(&self) -> (r: &'static str)
        ensures
            r@ == kind_token(*self),
    {
        proof {
            reveal_strlit("feat");
            reveal_strlit("fix");
            reveal_strlit("chore");
            assert("feat"@ =~= kind_token(MessageKind::Feature));
            assert("fix"@ =~= kind_token(MessageKind::Fix));
            assert("chore"@ =~= kind_token(MessageKind::Chore));
        }
        match self {
            MessageKind::Feature => "feat",
            MessageKind::Fix => "fix",
            MessageKind::Chore => "chore",
        }
    }
}

/// Law: kind tokens round-trip. The canonical token of a kind resolves back
/// to that kind, and a token that resolves to a kind is that kind's
/// canonical token.
pub proof fn lemma_kind_token_round_trip(k: MessageKind, t: Seq<char>)
    ensures
        kind_of_token(kind_token(k)) == Some(k),
        kind_of_token(t) == Some(k) ==> t == kind_token(k),
{
    assert(kind_token(MessageKind::Feature).len() == 4);
    assert(kind_token(MessageKind::Fix).len() == 3);
    assert(kind_token(MessageKind::Chore).len() == 5);
}

/// The kind the command-line flags ask for: the chore flag wins over the fix
/// flag, and neither means a feature.
pub fn kind_from_flags(chore: bool, fix: bool) -> (k: MessageKind)
    ensures
        k == (if chore {
            MessageKind::Chore
        } else if fix {
            MessageKind::Fix
        } else {
            MessageKind::Feature
        }),
{
    if chore {
        MessageKind::Chore
    } else if fix {
        MessageKind::Fix
    } else {
        MessageKind::Feature
    }
}

proof fn lemma_kind_token_word_chars(k: MessageKind)
    ensures
        0 < kind_token(k).len(),
        forall|j: int| 0 <= j < kind_token(k).len() ==> is_word_char(#[trigger] kind_token(k)[j]),
{
    let t = kind_token(k);
    assert forall|j: int| 0 <= j < t.len() implies is_word_char(#[trigger] t[j]) by {
        match k {
            MessageKind::Feature => {
                assert(is_word_char(t[0]));
                assert(is_word_char(t[1]));
                assert(is_word_char(t[2]));
                assert(is_word_char(t[3]));
            },
            MessageKind::Fix => {
                assert(is_word_char(t[0]));
                assert(is_word_char(t[1]));
                assert(is_word_char(t[2]));
            },
            MessageKind::Chore => {
                assert(is_word_char(t[0]));
                assert(is_word_char(t[1]));
                assert(is_word_char(t[2]));
                assert(is_word_char(t[3]));
                assert(is_word_char(t[4]));
            },
        }
    }
}

/// Law: rendering round-trips through the message grammar. A message whose
/// team is a non-empty run of word characters and whose body does not begin
/// with a space parses back from its own rendered text with the same kind,
/// story and body, whatever default kind the caller supplies.
/// `lemma_parsed_message_shape` and `lemma_parsed_branch_shape` show that
/// everything the two grammars build is of that shape.
pub proof fn lemma_render_parse_round_trip(m: Message, default_kind: Option<MessageKind>)
    requires
        0 < m.story.team@.len(),
        forall|j: int| 0 <= j < m.story.team@.len() ==> is_word_char(#[trigger] m.story.team@[j]),
        m.body@.len() > 0 ==> m.body@[0] != ' ',
    ensures
        msg_ok(message_text(m)),
        msg_fields(message_text(m), default_kind, m),
{
    let kt = kind_token(m.kind);
    let team = m.story.team@;
    let dec = dec_str(m.story.id as nat);
    let body = m.body@;
    let s = message_text(m);
    lemma_kind_token_word_chars(m.kind);
    lemma_dec_str_digits(m.story.id as nat);
    lemma_digits_val_dec_str(m.story.id as nat);
    let a = kt.len() as int;  // the colon
    let b = a + 2;  // the team, after the colon and one space
    let c = b + team.len() as int;  // the dash
    let d = c + 1;  // the digits
    let e = d + dec.len() as int;  // the space before the body
    let f = e + 1;  // the body
    assert(s =~= kt + seq![':', ' '] + team + seq!['-'] + dec + seq![' '] + body);
    assert(s.len() == f + body.len());
    assert forall|j: int| 0 <= j < a implies s[j] == kt[j] by {}
    assert(s[a] == ':');
    assert(s[a + 1] == ' ');
    assert forall|j: int| 0 <= j < team.len() implies s[b + j] == team[j] by {}
    assert(s[c] == '-');
    assert forall|j: int| 0 <= j < dec.len() implies s[d + j] == dec[j] by {}
    assert(s[e] == ' ');
    assert forall|j: int| 0 <= j < body.len() implies s[f + j] == body[j] by {}
    lemma_run_len_exact(s, 0, a, CharClass::Word);
    assert(msg_kind_end(s) == a);
    assert(msg_has_kind(s));
    assert(msg_kind_tok(s) =~= kt);
    lemma_run_len_exact(s, a + 1, 1, CharClass::Space);
    assert(msg_story_start(s) == b);
    lemma_run_len_exact(s, b, team.len() as int, CharClass::Word);
    assert(msg_team_end(s) == c);
    assert(msg_team(s) =~= team);
    lemma_run_len_exact(s, d, dec.len() as int, CharClass::Digit);
    assert(msg_digits_end(s) == e);
    assert(msg_digits(s) =~= dec);
    assert(msg_has_story(s));
    lemma_run_len_exact(s, e, 1, CharClass::Space);
    assert(msg_body_start(s) == f);
    assert(msg_body(s) =~= body);
    lemma_kind_token_round_trip(m.kind, kt);
}

/// Law: everything the message grammar builds has the round-trip shape: a
/// non-empty team of word characters, and a body that does not begin with a
/// space (the grammar takes the whole space run before the body).
pub proof fn lemma_parsed_message_shape(
    s: Seq<char>,
    default_kind: Option<MessageKind>,
    m: Message,
)
    requires
        msg_ok(s),
        msg_fields(s, default_kind, m),
    ensures
        0 < m.story.team@.len(),
        forall|j: int| 0 <= j < m.story.team@.len() ==> is_word_char(#[trigger] m.story.team@[j]),
        m.body@.len() > 0 ==> m.body@[0] != ' ',
{
    lemma_run_len(s, 0, CharClass::Word);
    if msg_has_kind(s) {
        lemma_run_len(s, msg_kind_end(s) + 1, CharClass::Space);
    }
    lemma_run_len(s, msg_story_start(s), CharClass::Word);
    assert forall|j: int| 0 <= j < m.story.team@.len() implies is_word_char(
        #[trigger] m.story.team@[j],
    ) by {
        assert(m.story.team@[j] == s[msg_story_start(s) + j]);
    }
    lemma_run_len(s, msg_digits_start(s), CharClass::Digit);
    lemma_run_len(s, msg_digits_end(s), CharClass::Space);
    if m.body@.len() > 0 {
        assert(m.body@[0] == s[msg_body_start(s)]);
    }
}

/// Law: everything the branch grammar builds has the round-trip shape too: a
/// non-empty team of word characters, and an empty body.
pub proof fn lemma_parsed_branch_shape(
    s: Seq<char>,
    force_kind: Option<MessageKind>,
    m: Message,
)
    requires
        br_ok(s, force_kind),
        br_fields(s, force_kind, m),
        m.body@ == Seq::<char>::empty(),
    ensures
        0 < m.story.team@.len(),
        forall|j: int| 0 <= j < m.story.team@.len() ==> is_word_char(#[trigger] m.story.team@[j]),
        m.body@.len() == 0,
{
    lemma_run_len(s, 0, CharClass::Word);
    lemma_run_len(s, br_story_pos(s), CharClass::Word);
    assert forall|j: int| 0 <= j < m.story.team@.len() implies is_word_char(
        #[trigger] m.story.team@[j],
    ) by {
        assert(m.story.team@[j] == s[br_story_pos(s) + j]);
    }
}

impl StoryId {
    /// Builds a story reference; well-formedness of `team` is the grammar
    /// layer's concern, not this constructor's.
    pub fn new(team: &str, id: u32) -> (r: StoryId)
        ensures
            r.team@ == team@,
            r.id == id,
    {
        StoryId { team: team.to_owned(), id }
    }

    /// Renders the reference as `team-id`.
    pub fn render(&self) -> (r: String)
        ensures
            r@ == story_text(*self),
    {
        proof {
            reveal_strlit("-");
        }
        let mut r = self.team.clone();
        r.append("-");
        let d = u32_digits(self.id);
        r.append(d.as_str());
        proof {
            assert("-"@ =~= seq!['-']);
            assert(r@ =~= story_text(*self));
        }
        r
    }
}

fn fallback_kind(default_kind: Option<MessageKind>) -> (k: MessageKind)
    ensures
        k == resolved_or(default_kind, MessageKind::Feature),
{
    match default_kind {
        Some(k) => k,
        None => MessageKind::Feature,
    }
}

/// Does a `team-id` pair of the branch grammar stand at position `p`?
fn branch_story_at(s: &str, p: usize) -> (b: bool)
    requires
        p <= s@.len(),
    ensures
        b == br_story_at(s@, p as int),
{
    let len = s.unicode_len();
    let wt = scan_run(s, p, CharClass::Word);
    let te = p + wt;
    wt > 0 && te < len && s.get_char(te) == '-' && scan_run(s, te + 1, CharClass::Digit) > 0
}

impl Message {
    /// Parses a free-text message of the shape `[kind: ][team-id ]body`.
    ///
    /// A message without a complete `team-id ` pair (or whose id does not fit
    /// the id type) is rejected. An absent or unrecognised kind prefix is not
    /// an error: it degrades to `default_kind`, and failing that to
    /// `Feature`.
    pub fn parse_message(message: &str, default_kind: Option<MessageKind>) -> (r: Result<
        Message,
        MessageError,
    >)
        ensures
            match r {
                Ok(m) => msg_ok(message@) && msg_fields(message@, default_kind, m),
                Err(e) => !msg_ok(message@) && e == MessageError::InvalidCommitMessage,
            },
    {
        let ghost s = message@;
        let len = message.unicode_len();
        let w0 = scan_run(message, 0, CharClass::Word);
        let has_kind = w0 > 0 && w0 < len && message.get_char(w0) == ':';
        assert(has_kind == msg_has_kind(s));
        let story_start: usize = if has_kind {
            let p = w0 + 1;
            p + scan_run(message, p, CharClass::Space)
        } else {
            0
        };
        assert(story_start as int == msg_story_start(s));
        let wt = scan_run(message, story_start, CharClass::Word);
        let team_end = story_start + wt;
        if !(wt > 0 && team_end < len && message.get_char(team_end) == '-') {
            return Err(MessageError::InvalidCommitMessage);
        }
        let ds = team_end + 1;
        let wd = scan_run(message, ds, CharClass::Digit);
        let de = ds + wd;
        if !(wd > 0 && de < len && message.get_char(de) == ' ') {
            return Err(MessageError::InvalidCommitMessage);
        }
        assert(msg_has_story(s));
        proof {
            lemma_run_len(s, ds as int, CharClass::Digit);
        }
        let id = match u32_from_digits(message, ds, de) {
            Some(v) => v,
            None => {
                return Err(MessageError::InvalidCommitMessage);
            },
        };
        let bs = de + scan_run(message, de, CharClass::Space);
        let team = message.substring_char(story_start, team_end);
        let body = message.substring_char(bs, len);
        let kind = if has_kind {
            match MessageKind::new(message.substring_char(0, w0)) {
                Ok(k) => k,
                Err(_) => fallback_kind(default_kind),
            }
        } else {
            fallback_kind(default_kind)
        };
        Ok(Message { kind, story: StoryId::new(team, id), body: body.to_owned() })
    }

    /// Parses a branch name of the shape `[kind/ or kind-]team-id[-trailing]`.
    ///
    /// Trailing text after the id is discarded and the body is empty. A
    /// forced kind overrides an explicit kind token; an explicit token
    /// without a force must resolve, else the parse fails with an invalid
    /// kind; an absent token means `Feature`, whatever the force.
    pub fn parse_branch(branch: &str, force_kind: Option<MessageKind>) -> (r: Result<
        Message,
        MessageError,
    >)
        ensures
            match r {
                Ok(m) => br_ok(branch@, force_kind) && br_fields(branch@, force_kind, m)
                    && m.body@ == Seq::<char>::empty(),
                Err(e) => !br_ok(branch@, force_kind) && e == br_error(branch@, force_kind),
            },
    {
        let ghost s = branch@;
        let len = branch.unicode_len();
        let w0 = scan_run(branch, 0, CharClass::Word);
        let kinded = if w0 > 0 && w0 < len {
            let sep = branch.get_char(w0);
            (sep == '/' || sep == '-') && branch_story_at(branch, w0 + 1)
        } else {
            false
        };
        assert(kinded == br_kinded(s));
        let story_pos: usize = if kinded {
            w0 + 1
        } else {
            0
        };
        let wt = scan_run(branch, story_pos, CharClass::Word);
        let te = story_pos + wt;
        if !(wt > 0 && te < len && branch.get_char(te) == '-') {
            assert(!br_matches(s));
            return Err(MessageError::InvalidCommitMessage);
        }
        let ds = te + 1;
        let wd = scan_run(branch, ds, CharClass::Digit);
        if wd == 0 {
            assert(!br_matches(s));
            return Err(MessageError::InvalidCommitMessage);
        }
        assert(br_matches(s));
        let de = ds + wd;
        proof {
            lemma_run_len(s, ds as int, CharClass::Digit);
        }
        let id = match u32_from_digits(branch, ds, de) {
            Some(v) => v,
            None => {
                return Err(MessageError::InvalidCommitMessage);
            },
        };
        let kind: MessageKind = if kinded {
            match force_kind {
                Some(f) => f,
                None => match MessageKind::new(branch.substring_char(0, w0)) {
                    Ok(k) => k,
                    Err(_) => {
                        return Err(MessageError::InvalidKind(MessageKindError::InvalidKind));
                    },
                },
            }
        } else {
            MessageKind::Feature
        };
        let team = branch.substring_char(story_pos, te);
        Ok(Message { kind, story: StoryId::new(team, id), body: String::new() })
    }

    /// Parses the message, and falls back to the branch name.
    ///
    /// A message that parses is returned unchanged and the branch is not
    /// consulted. Otherwise the branch supplies kind and story, the raw
    /// message text becomes the body, and a failing branch parse propagates
    /// its own error.
    pub fn parse(message: &str, branch: &str, kind: Option<MessageKind>) -> (r: Result<
        Message,
        MessageError,
    >)
        ensures
            match r {
                Ok(m) => if msg_ok(message@) {
                    msg_fields(message@, kind, m)
                } else {
                    br_ok(branch@, kind) && br_fields(branch@, kind, m) && m.body@ == message@
                },
                Err(e) => !msg_ok(message@) && !br_ok(branch@, kind) && e == br_error(
                    branch@,
                    kind,
                ),
            },
    {
        match Message::parse_message(message, kind) {
            Ok(m) => Ok(m),
            Err(_) => match Message::parse_branch(branch, kind) {
                Ok(m) => Ok(
                    Message { kind: m.kind, story: m.story, body: message.to_owned() },
                ),
                Err(e) => Err(e),
            },
        }
    }

    /// Renders the message as `kind: team-id body`. The body follows a
    /// single space, so an empty body leaves a trailing space.
    pub fn render(&self) -> (r: String)
        ensures
            r@ == message_text(*self),
    {
        proof {
            reveal_strlit(": ");
            reveal_strlit(" ");
        }
        let mut r = String::new();
        r.append(self.kind.token());
        r.append(": ");
        let st = self.story.render();
        r.append(st.as_str());
        r.append(" ");
        r.append(self.body.as_str());
        proof {
            assert(": "@ =~= seq![':', ' ']);
            assert(" "@ =~= seq![' ']);
            assert(r@ =~= message_text(*self));
        }
        r
    }
}

} // verus!
