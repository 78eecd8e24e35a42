//! What the console and the bot read from text: commands, channels, guild ids.

use crate::text::{
    chars_of, find, parse_u64, spec_find, spec_parse_u64, spec_trim, trim, CharClass,
};
use vstd::prelude::*;
use vstd::slice::slice_subrange;
use vstd::string::{StrSliceExecFns, StringExecFns};

verus! {

/// A channel of a guild: the guild's id, then the channel's.
#[derive(Clone, Copy, Debug, PartialEq, Eq, Structural)]
pub struct ChannelIdentity(pub u64, pub u64);

/// A command of the console, taken apart.
#[derive(Debug)]
pub struct ParsedCommand {
    /// The command's name.
    pub command: String,
    /// What follows the name, if anything does.
    pub args: Option<String>,
}

/// The segment of `text` before its first blank.
pub open spec fn spec_segment(text: Seq<char>) -> Seq<char> {
    text.take(spec_find(text, CharClass::Is(' ')))
}

/// What follows the first blank of `text`, if it has one.
pub open spec fn spec_after_segment(text: Seq<char>) -> Option<Seq<char>> {
    if spec_find(text, CharClass::Is(' ')) < text.len() {
        Some(text.skip(spec_find(text, CharClass::Is(' ')) + 1))
    } else {
        None
    }
}

/// The channel that `text` names: two numbers with one blank between them, each with or
/// without white space around it. What follows a second blank does not count.
pub open spec fn spec_channel_identity(text: Seq<char>) -> Option<ChannelIdentity> {
    match (spec_parse_u64(spec_trim(spec_segment(text))), spec_after_segment(text)) {
        (Some(guild), Some(rest)) => match spec_parse_u64(spec_trim(spec_segment(rest))) {
            Some(channel) => Some(ChannelIdentity(guild, channel)),
            None => None,
        },
        _ => None,
    }
}

/// Takes the next segment off `rest`, the input that is left, and reads a number from it.
/// The result is the number, if there was a segment and it writes one, and the input that is
/// left behind the segment.
pub fn consume_and_parse_u64<'a>(rest: Option<&'a [char]>) -> (res: (Option<u64>, Option<&'a [char]>))
    ensures
        match rest {
            Some(text) => {
                &&& res.0 == spec_parse_u64(spec_trim(spec_segment(text@)))
                &&& match res.1 {
                    Some(left) => spec_after_segment(text@) == Some(left@),
                    None => spec_after_segment(text@) is None,
                }
            },
            None => res.0 is None && res.1 is None,
        },
{
    match rest {
        Some(text) => {
            let blank = find(text, CharClass::Is(' '));
            let segment = slice_subrange(text, 0, blank);
            assert(segment@ =~= spec_segment(text@));
            let number = parse_u64(trim(segment));
            if blank < text.len() {
                let left = slice_subrange(text, blank + 1, text.len());
                assert(left@ =~= text@.skip(blank + 1));
                (number, Some(left))
            } else {
                (number, None)
            }
        },
        None => (None, None),
    }
}

/// Reads the identity of a channel: the guild's id, a blank, the channel's id.
pub fn parse_channel_identity(input: &str) -> (identity: Option<ChannelIdentity>)
    ensures
        identity == spec_channel_identity(input@),
{
    let chars = chars_of(input);
    let (guild, rest) = consume_and_parse_u64(Some(chars.as_slice()));
    let guild = match guild {
        Some(guild) => guild,
        None => {
            return None;
        },
    };
    let (channel, _) = consume_and_parse_u64(rest);
    match channel {
        Some(channel) => Some(ChannelIdentity(guild, channel)),
        None => None,
    }
}

/// The numbers among `texts`, in order: every text that writes a number counts, the others are
/// passed over.
pub open spec fn spec_guild_ids(texts: Seq<String>) -> Seq<u64>
    decreases texts.len(),
{
    if texts.len() == 0 {
        Seq::empty()
    } else {
        match spec_parse_u64(texts.last()@) {
            Some(id) => spec_guild_ids(texts.drop_last()).push(id),
            None => spec_guild_ids(texts.drop_last()),
        }
    }
}

/// Reads the ids of the guilds from their records. A record that holds no number is passed
/// over.
pub fn guild_ids(records: &[String]) -> (ids: Vec<u64>)
    ensures
        ids@ == spec_guild_ids(records@),
{
    let mut ids: Vec<u64> = Vec::new();
    let mut i: usize = 0;
    assert(records@.take(0) =~= Seq::<String>::empty());
    while i < records.len()
        invariant
            i <= records@.len(),
            ids@ == spec_guild_ids(records@.take(i as int)),
        decreases records@.len() - i,
    {
        let chars = chars_of(records[i].as_str());
        assert(records@.take(i + 1).drop_last() =~= records@.take(i as int));
        match parse_u64(chars.as_slice()) {
            Some(id) => {
                ids.push(id);
            },
            None => {},
        }
        i += 1;
    }
    assert(records@.take(records@.len() as int) =~= records@);
    ids
}

/// The command that `text` gives: a percent sign, then the name, which runs up to the first
/// white space. Where white space follows the name, the arguments are what stands behind that
/// white space, up to the end of the line.
pub open spec fn spec_command(text: Seq<char>) -> Option<(Seq<char>, Option<Seq<char>>)> {
    if text.len() == 0 || text[0] != '%' {
        None
    } else {
        let body = text.skip(1);
        let end = spec_find(body, CharClass::Space);
        if end == 0 {
            None
        } else if end == body.len() {
            Some((body, None))
        } else {
            let after = body.skip(end);
            let tail = after.skip(spec_find(after, CharClass::NotSpace));
            Some((body.take(end), Some(tail.take(spec_find(tail, CharClass::Is('\n'))))))
        }
    }
}

/// Takes a command of the console apart.
pub fn parse_command(input: &str) -> (parsed: Option<ParsedCommand>)
    ensures
        match parsed {
            Some(parsed) => spec_command(input@) == Some(
                (
                    parsed.command@,
                    match parsed.args {
                        Some(args) => Some(args@),
                        None => None,
                    },
                ),
            ),
            None => spec_command(input@) is None,
        },
{
    let chars = chars_of(input);
    if chars.len() == 0 || chars[0] != '%' {
        return None;
    }
    let body = slice_subrange(chars.as_slice(), 1, chars.len());
    assert(body@ =~= input@.skip(1));
    let end = find(body, CharClass::Space);
    if end == 0 {
        return None;
    }
    let command = String::from_str(input.substring_char(1, 1 + end));
    assert(command@ =~= body@.take(end as int));
    if end == body.len() {
        assert(body@.take(end as int) =~= body@);
        return Some(ParsedCommand { command, args: None });
    }
    let after = slice_subrange(body, end, body.len());
    assert(after@ =~= body@.skip(end as int));
    let start = find(after, CharClass::NotSpace);
    let tail = slice_subrange(after, start, after.len());
    assert(tail@ =~= after@.skip(start as int));
    let stop = find(tail, CharClass::Is('\n'));
    let from = 1 + end + start;
    let args = String::from_str(input.substring_char(from, from + stop));
    assert(args@ =~= tail@.take(stop as int));
    Some(ParsedCommand { command, args: Some(args) })
}

} // verus!
