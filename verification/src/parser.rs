//! Turning one inbound event payload into a structured command.
//!
//! The payload is a JSON object; the fields the parser reads are `type`,
//! `text`, `user` and `channel`. An event yields a command exactly when its
//! type is `"message"`, its text starts with `!<bot-name>`, and a
//! non-empty sender and channel are present. The text is split on runs of
//! whitespace; the first token (the `!<bot-name>` prefix position) is
//! skipped, the next token names the command, the rest are its arguments.

use vstd::prelude::*;
use vstd::string::StrSliceExecFns;

verus! {

/// Whitespace for tokenization: the characters with the Unicode
/// `White_Space` property, the same set `char::is_whitespace` accepts.
pub open spec fn is_space_char(c: char) -> bool {
    let u = c as u32;
    ||| u == 0x20
    ||| (0x09 <= u && u <= 0x0D)
    ||| u == 0x85
    ||| u == 0xA0
    ||| u == 0x1680
    ||| (0x2000 <= u && u <= 0x200A)
    ||| u == 0x2028
    ||| u == 0x2029
    ||| u == 0x202F
    ||| u == 0x205F
    ||| u == 0x3000
}

/// Executable test for `is_space_char`.
pub fn is_space(c: char) -> (r: bool)
    ensures
        r == is_space_char(c),
{
    let u = c as u32;
    u == 0x20 || (0x09 <= u && u <= 0x0D) || u == 0x85 || u == 0xA0 || u == 0x1680
        || (0x2000 <= u && u <= 0x200A) || u == 0x2028 || u == 0x2029 || u == 0x202F
        || u == 0x205F || u == 0x3000
}

/// The tokens of `s`: maximal runs of non-whitespace characters, in order.
pub open spec fn split_ws(s: Seq<char>) -> Seq<Seq<char>>
    decreases s.len(),
{
    if s.len() == 0 {
        Seq::empty()
    } else if is_space_char(s[0]) {
        split_ws(s.drop_first())
    } else {
        let rest = split_ws(s.drop_first());
        if s.len() > 1 && !is_space_char(s[1]) {
            seq![seq![s[0]] + rest[0]] + rest.drop_first()
        } else {
            seq![seq![s[0]]] + rest
        }
    }
}

/// A text that opens with a non-space character contributes a first token
/// that also opens with that character.
pub proof fn lemma_split_ws_nonspace_head(s: Seq<char>)
    requires
        s.len() > 0,
        !is_space_char(s[0]),
    ensures
        split_ws(s).len() > 0,
        split_ws(s)[0].len() > 0,
        split_ws(s)[0][0] == s[0],
    decreases s.len(),
{
    if s.len() > 1 && !is_space_char(s[1]) {
        lemma_split_ws_nonspace_head(s.drop_first());
    }
}

/// Every token produced by `split_ws` is non-empty.
pub proof fn lemma_split_ws_tokens_nonempty(s: Seq<char>)
    ensures
        forall|i: int| 0 <= i < split_ws(s).len() ==> (#[trigger] split_ws(s)[i]).len() > 0,
    decreases s.len(),
{
    if s.len() == 0 {
    } else if is_space_char(s[0]) {
        lemma_split_ws_tokens_nonempty(s.drop_first());
        assert forall|i: int| 0 <= i < split_ws(s).len() implies (#[trigger] split_ws(
            s,
        )[i]).len() > 0 by {
            assert(split_ws(s)[i] == split_ws(s.drop_first())[i]);
        }
    } else {
        lemma_split_ws_tokens_nonempty(s.drop_first());
        let rest = split_ws(s.drop_first());
        if s.len() > 1 && !is_space_char(s[1]) {
            lemma_split_ws_nonspace_head(s.drop_first());
            assert forall|i: int| 0 <= i < split_ws(s).len() implies (#[trigger] split_ws(
                s,
            )[i]).len() > 0 by {
                if i > 0 {
                    assert(split_ws(s)[i] == rest[i]);
                }
            }
        } else {
            assert forall|i: int| 0 <= i < split_ws(s).len() implies (#[trigger] split_ws(
                s,
            )[i]).len() > 0 by {
                if i > 0 {
                    assert(split_ws(s)[i] == rest[i - 1]);
                }
            }
        }
    }
}

/// Dropping one leading space character does not change the tokens.
proof fn lemma_split_ws_skip_space(s: Seq<char>)
    requires
        s.len() > 0,
        is_space_char(s[0]),
    ensures
        split_ws(s) == split_ws(s.drop_first()),
{
}

/// If the first `k` characters of `s` are non-space and character `k` (if
/// any) is a space, then the first token is exactly those `k` characters
/// and the rest of the tokens come from the remainder.
proof fn lemma_split_ws_take_token(s: Seq<char>, k: int)
    requires
        0 < k <= s.len(),
        forall|j: int| 0 <= j < k ==> !is_space_char(#[trigger] s[j]),
        k == s.len() || is_space_char(s[k]),
    ensures
        split_ws(s) == seq![s.take(k)] + split_ws(s.skip(k)),
    decreases k,
{
    let rest = split_ws(s.drop_first());
    if k == 1 {
        if s.len() > 1 {
            assert(is_space_char(s[1]));
        }
        assert(s.take(1) =~= seq![s[0]]);
        assert(s.skip(1) =~= s.drop_first());
        assert(split_ws(s) =~= seq![s.take(1)] + split_ws(s.skip(1)));
    } else {
        lemma_split_ws_take_token(s.drop_first(), k - 1);
        assert(!is_space_char(s[1]));
        lemma_split_ws_nonspace_head(s.drop_first());
        assert(rest == seq![s.drop_first().take(k - 1)] + split_ws(s.drop_first().skip(k - 1)));
        assert(rest[0] == s.drop_first().take(k - 1));
        assert(seq![s[0]] + rest[0] =~= s.take(k));
        assert(rest.drop_first() =~= split_ws(s.drop_first().skip(k - 1)));
        assert(s.drop_first().skip(k - 1) =~= s.skip(k));
        assert(split_ws(s) =~= seq![s.take(k)] + split_ws(s.skip(k)));
    }
}

/// Split `text` on runs of whitespace into its non-empty tokens, in order.
pub fn split_whitespace_tokens(text: &str) -> (tokens: Vec<String>)
    ensures
        tokens.deep_view() == split_ws(text@),
{
    let n = text.unicode_len();
    let mut tokens: Vec<String> = Vec::new();
    let mut i: usize = 0;
    proof {
        assert(text@.skip(0) =~= text@);
        assert(tokens.deep_view() =~= Seq::<Seq<char>>::empty());
    }
    while i < n
        invariant
            i <= n,
            n == text@.len(),
            tokens.deep_view() + split_ws(text@.skip(i as int)) =~= split_ws(text@),
        decreases n - i,
    {
        let c = text.get_char(i);
        if is_space(c) {
            proof {
                lemma_split_ws_skip_space(text@.skip(i as int));
                assert(text@.skip(i as int).drop_first() =~= text@.skip(i + 1));
            }
            i = i + 1;
        } else {
            let start: usize = i;
            let mut j: usize = i + 1;
            while j < n && !is_space(text.get_char(j))
                invariant
                    start < j <= n,
                    n == text@.len(),
                    forall|k: int| start <= k < j ==> !is_space_char(#[trigger] text@[k]),
                decreases n - j,
            {
                j = j + 1;
            }
            let token = text.substring_char(start, j).to_owned();
            proof {
                let suffix = text@.skip(start as int);
                let k = j - start;
                assert(forall|m: int| 0 <= m < k ==> !is_space_char(#[trigger] suffix[m]));
                if (j as int) < n {
                    assert(is_space_char(suffix[k]));
                }
                lemma_split_ws_take_token(suffix, k);
                assert(suffix.take(k) =~= text@.subrange(start as int, j as int));
                assert(suffix.skip(k) =~= text@.skip(j as int));
            }
            let ghost old_tokens = tokens.deep_view();
            tokens.push(token);
            proof {
                assert(tokens.deep_view() =~= old_tokens.push(token@));
                assert(tokens.deep_view() + split_ws(text@.skip(j as int)) =~= split_ws(text@));
            }
            i = j;
        }
    }
    proof {
        assert(text@.skip(n as int) =~= Seq::<char>::empty());
        assert(tokens.deep_view() =~= split_ws(text@));
    }
    tokens
}

/// The fields the parser reads from one inbound event payload, each
/// present only when the payload carries it as a string.
pub struct RawEvent {
    /// The payload's `type` field.
    pub event_type: Option<String>,
    /// The payload's `text` field.
    pub text: Option<String>,
    /// The payload's `user` field.
    pub user: Option<String>,
    /// The payload's `channel` field.
    pub channel: Option<String>,
}

/// The mathematical model of a `RawEvent`.
pub struct RawEventModel {
    pub event_type: Option<Seq<char>>,
    pub text: Option<Seq<char>>,
    pub user: Option<Seq<char>>,
    pub channel: Option<Seq<char>>,
}

/// The view of an optional string.
pub open spec fn opt_view(s: Option<String>) -> Option<Seq<char>> {
    match s {
        Option::Some(s) => Option::Some(s@),
        Option::None => Option::None,
    }
}

impl View for RawEvent {
    type V = RawEventModel;

    open spec fn view(&self) -> RawEventModel {
        RawEventModel {
            event_type: opt_view(self.event_type),
            text: opt_view(self.text),
            user: opt_view(self.user),
            channel: opt_view(self.channel),
        }
    }
}

/// A structured request addressed to the bot, extracted from one inbound
/// event.
pub struct Command {
    /// The token naming the requested action.
    pub name: String,
    /// The whitespace-delimited tokens following the name, in order.
    pub args: Vec<String>,
    /// The identifier of the message's author.
    pub user_id: String,
    /// The identifier of the channel the message arrived on.
    pub channel_id: String,
}

/// The mathematical model of a `Command`.
pub struct CommandModel {
    pub name: Seq<char>,
    pub args: Seq<Seq<char>>,
    pub user_id: Seq<char>,
    pub channel_id: Seq<char>,
}

impl View for Command {
    type V = CommandModel;

    open spec fn view(&self) -> CommandModel {
        CommandModel {
            name: self.name@,
            args: self.args.deep_view(),
            user_id: self.user_id@,
            channel_id: self.channel_id@,
        }
    }
}

/// The prefix that addresses the bot: `!` followed by the bot's name.
pub open spec fn command_prefix(bot_name: Seq<char>) -> Seq<char> {
    seq!['!'] + bot_name
}

/// Whether `p` is a prefix of `s`.
pub open spec fn starts_with_spec(s: Seq<char>, p: Seq<char>) -> bool {
    p.len() <= s.len() && s.take(p.len() as int) == p
}

/// The command carried by a prefixed message text: the first token (the
/// prefix position) is skipped, the second token names the command and
/// the rest are its arguments; with no second token the command is
/// `help` with no arguments.
pub open spec fn command_of_text(text: Seq<char>, user: Seq<char>, channel: Seq<char>) -> CommandModel {
    let toks = split_ws(text);
    if toks.len() >= 2 {
        CommandModel {
            name: toks[1],
            args: toks.skip(2),
            user_id: user,
            channel_id: channel,
        }
    } else {
        CommandModel {
            name: "help"@,
            args: Seq::empty(),
            user_id: user,
            channel_id: channel,
        }
    }
}

/// What parsing one event yields: a command exactly when the event is a
/// message, its text starts with the bot's prefix, and a non-empty
/// sender and a non-empty channel are present: a command cannot be
/// routed without knowing who sent it and where.
pub open spec fn parse_spec(bot_name: Seq<char>, ev: RawEventModel) -> Option<CommandModel> {
    if ev.event_type == Option::Some("message"@) {
        match (ev.text, ev.user, ev.channel) {
            (Option::Some(text), Option::Some(user), Option::Some(channel)) => {
                if starts_with_spec(text, command_prefix(bot_name)) && user.len() > 0
                    && channel.len() > 0 {
                    Option::Some(command_of_text(text, user, channel))
                } else {
                    Option::None
                }
            },
            _ => Option::None,
        }
    } else {
        Option::None
    }
}

/// Whether two strings hold the same characters.
pub fn str_eq(a: &str, b: &str) -> (r: bool)
    ensures
        r == (a@ == b@),
{
    let na = a.unicode_len();
    let nb = b.unicode_len();
    if na != nb {
        return false;
    }
    let mut i: usize = 0;
    while i < na
        invariant
            i <= na,
            na == a@.len(),
            na == b@.len(),
            forall|j: int| 0 <= j < i ==> a@[j] == b@[j],
        decreases na - i,
    {
        if a.get_char(i) != b.get_char(i) {
            return false;
        }
        i = i + 1;
    }
    proof {
        assert(a@ =~= b@);
    }
    true
}

/// Whether `text` starts with `!` followed by `bot_name`.
pub fn starts_with_prefix(text: &str, bot_name: &str) -> (r: bool)
    ensures
        r == starts_with_spec(text@, command_prefix(bot_name@)),
{
    let nt = text.unicode_len();
    let nb = bot_name.unicode_len();
    if nt < 1 || nt - 1 < nb {
        return false;
    }
    if text.get_char(0) != '!' {
        proof {
            assert(command_prefix(bot_name@)[0] == '!');
            assert(text@.take(nb + 1)[0] == text@[0]);
        }
        return false;
    }
    let mut i: usize = 0;
    while i < nb
        invariant
            i <= nb,
            nt == text@.len(),
            nb == bot_name@.len(),
            1 <= nt,
            nb <= nt - 1,
            text@[0] == '!',
            forall|j: int| 0 <= j < i ==> text@[j + 1] == bot_name@[j],
        decreases nb - i,
    {
        if text.get_char(i + 1) != bot_name.get_char(i) {
            assert(text@.take(nb + 1) != command_prefix(bot_name@)) by {
                assert(command_prefix(bot_name@)[i + 1] == bot_name@[i as int]);
                assert(text@.take(nb + 1)[i + 1] == text@[i + 1]);
            }
            return false;
        }
        i = i + 1;
    }
    proof {
        assert(text@.take(nb + 1) =~= command_prefix(bot_name@));
    }
    true
}

/// Parse one already-decoded event into a command, if it is one. A
/// returned command always has a non-empty name, sender and channel.
pub fn parse_event(bot_name: &str, event: &RawEvent) -> (r: Option<Command>)
    ensures
        (r is Some) == (parse_spec(bot_name@, event@) is Some),
        r matches Some(c) ==> parse_spec(bot_name@, event@) == Some(c@),
        r matches Some(c) ==> c.name@.len() > 0 && c.user_id@.len() > 0
            && c.channel_id@.len() > 0,
{
    let ty = match &event.event_type {
        Some(t) => t,
        None => {
            return None;
        },
    };
    if !str_eq(ty.as_str(), "message") {
        return None;
    }
    let text = match &event.text {
        Some(t) => t,
        None => {
            return None;
        },
    };
    if !starts_with_prefix(text.as_str(), bot_name) {
        return None;
    }
    let user = match &event.user {
        Some(u) => {
            if u.as_str().is_empty() {
                return None;
            }
            u.clone()
        },
        None => {
            return None;
        },
    };
    let channel = match &event.channel {
        Some(c) => {
            if c.as_str().is_empty() {
                return None;
            }
            c.clone()
        },
        None => {
            return None;
        },
    };
    let tokens = split_whitespace_tokens(text.as_str());
    proof {
        lemma_split_ws_tokens_nonempty(text@);
    }
    if tokens.len() >= 2 {
        let name = tokens[1].clone();
        let mut args: Vec<String> = Vec::new();
        let mut i: usize = 2;
        while i < tokens.len()
            invariant
                2 <= i <= tokens@.len(),
                args.deep_view() =~= tokens.deep_view().subrange(2, i as int),
            decreases tokens@.len() - i,
        {
            let ghost old_args = args.deep_view();
            args.push(tokens[i].clone());
            proof {
                assert(args.deep_view() =~= old_args.push(tokens@[i as int]@));
                assert(args.deep_view() =~= tokens.deep_view().subrange(2, i + 1));
            }
            i = i + 1;
        }
        proof {
            assert(args.deep_view() =~= split_ws(text@).skip(2));
            assert(name@ == split_ws(text@)[1]);
        }
        Some(Command { name, args, user_id: user, channel_id: channel })
    } else {
        proof {
            reveal_strlit("help");
        }
        let name = "help".to_owned();
        let args: Vec<String> = Vec::new();
        proof {
            assert(args.deep_view() =~= Seq::<Seq<char>>::empty());
        }
        Some(Command { name, args, user_id: user, channel_id: channel })
    }
}

/// What the `type`, `text`, `user` and `channel` string fields of a JSON
/// payload hold, or nothing when the payload is not valid JSON; a
/// function of the payload text alone.
pub uninterp spec fn payload_fields(raw: Seq<char>) -> Option<
    (Option<Seq<char>>, Option<Seq<char>>, Option<Seq<char>>, Option<Seq<char>>),
>;

/// The event modelled by decoded payload fields.
pub open spec fn fields_model(
    f: (Option<Seq<char>>, Option<Seq<char>>, Option<Seq<char>>, Option<Seq<char>>),
) -> RawEventModel {
    RawEventModel { event_type: f.0, text: f.1, user: f.2, channel: f.3 }
}

/// Relies on serde_json::from_str to decode the payload, and on
/// serde_json::Value::get and Value::as_str to read the `type`, `text`,
/// `user` and `channel` fields of the decoded object, each a string
/// field's contents or absent.
#[verifier::external_body]
pub(crate) fn decode_payload(raw: &str) -> (r: Option<RawEvent>)
    ensures
        (r is Some) == (payload_fields(raw@) is Some),
        r matches Some(e) ==> payload_fields(raw@) == Some(
            (e@.event_type, e@.text, e@.user, e@.channel),
        ),
{
    match serde_json::from_str::<serde_json::Value>(raw) {
        Ok(v) => Some(RawEvent {
            event_type: v.get("type").and_then(|f| f.as_str()).map(str::to_owned),
            text: v.get("text").and_then(|f| f.as_str()).map(str::to_owned),
            user: v.get("user").and_then(|f| f.as_str()).map(str::to_owned),
            channel: v.get("channel").and_then(|f| f.as_str()).map(str::to_owned),
        }),
        Err(_) => None,
    }
}

/// Parse one raw payload into a command, if it is one: a payload that is
/// not valid JSON is treated as no command. A returned command always
/// has a non-empty name, sender and channel.
pub fn parse_payload(bot_name: &str, raw_payload: &str) -> (r: Option<Command>)
    ensures
        match payload_fields(raw_payload@) {
            Option::Some(f) => (r is Some) == (parse_spec(bot_name@, fields_model(f)) is Some)
                && (r matches Some(c) ==> parse_spec(bot_name@, fields_model(f)) == Some(c@)),
            Option::None => r is None,
        },
        r matches Some(c) ==> c.name@.len() > 0 && c.user_id@.len() > 0
            && c.channel_id@.len() > 0,
{
    match decode_payload(raw_payload) {
        Some(event) => parse_event(bot_name, &event),
        None => None,
    }
}

/// An event whose type is not `"message"` never yields a command.
pub proof fn lemma_non_message_is_ignored(bot_name: Seq<char>, ev: RawEventModel)
    requires
        ev.event_type != Option::Some("message"@),
    ensures
        parse_spec(bot_name, ev) is None,
{
}

/// A message whose text does not start with `!` followed by the bot's
/// name never yields a command.
pub proof fn lemma_unprefixed_text_is_ignored(bot_name: Seq<char>, ev: RawEventModel)
    requires
        ev.text matches Option::Some(t) ==> !starts_with_spec(t, command_prefix(bot_name)),
    ensures
        parse_spec(bot_name, ev) is None,
{
}

/// Parsing is a pure function of its inputs: one payload parses to one
/// command value, however often it is parsed.
pub proof fn lemma_parse_deterministic(bot_name: Seq<char>, e1: RawEventModel, e2: RawEventModel)
    requires
        e1 == e2,
    ensures
        parse_spec(bot_name, e1) == parse_spec(bot_name, e2),
{
}

} // verus!
