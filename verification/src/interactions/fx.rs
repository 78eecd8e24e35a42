//! The options of the command that creates a clip, and the messages that answer it.

use crate::fx::controller::{DiscordOrigin, Fx};
use crate::fx::origin::MediaOrigin;
use rand::distributions::{Distribution, Uniform};
use vstd::prelude::*;

verus! {

/// The value of a command option, as the chat platform resolved it.
#[derive(Clone, Debug)]
pub enum OptionValue {
    /// A text.
    String(String),
    /// A whole number.
    Integer(i64),
    /// Anything else.
    Other,
}

/// What the options of the command that creates a clip said.
#[derive(Debug)]
pub struct FxArgument {
    /// The clip's name, if one was given.
    pub name: Option<String>,
    /// The clip's description, if one was given.
    pub description: Option<String>,
    /// Where the media is fetched from, if it was said.
    pub url: Option<String>,
    /// Where the clip starts, in seconds.
    pub start: u64,
    /// How long the clip is, in seconds.
    pub length: u64,
    /// Where the command was given.
    pub discord: DiscordOrigin,
}

impl FxArgument {
    /// The record of the clip, if name, description and locator were all given.
    pub fn to_fx(self) -> (fx: Option<Fx>)
        ensures
            match fx {
                Some(fx) => {
                    &&& self.name == Some(fx.name)
                    &&& self.description == Some(fx.description)
                    &&& self.url == Some(fx.media.url)
                    &&& fx.media.start == self.start
                    &&& fx.media.length == self.length
                    &&& fx.discord == self.discord
                },
                None => self.name is None || self.description is None || self.url is None,
            },
    {
        match (self.name, self.description, self.url) {
            (Some(name), Some(description), Some(url)) => Some(
                Fx {
                    name,
                    description,
                    discord: self.discord,
                    media: MediaOrigin { url, start: self.start, length: self.length },
                },
            ),
            _ => None,
        }
    }
}

/// A whole number taken as an unsigned one of the same width: a negative one wraps around.
pub open spec fn wrapped(value: i64) -> u64 {
    if value >= 0 {
        value as u64
    } else {
        (value + 0x1_0000_0000_0000_0000) as u64
    }
}

/// The text of the option at `index`, if there is such an option and it is a text.
pub open spec fn spec_text_at(options: Seq<Option<OptionValue>>, index: int) -> Option<String> {
    if index < options.len() {
        match options[index] {
            Some(OptionValue::String(text)) => Some(text),
            _ => None,
        }
    } else {
        None
    }
}

/// The start that the options ask for: the whole number at the fourth place, and 0 where there
/// is none.
pub open spec fn spec_start(options: Seq<Option<OptionValue>>) -> u64 {
    if 3 < options.len() {
        match options[3] {
            Some(OptionValue::Integer(value)) => wrapped(value),
            _ => 0,
        }
    } else {
        0
    }
}

/// The length that the options ask for: the whole number at the fifth place, and 5 where there
/// is none or where it is 0.
pub open spec fn spec_length(options: Seq<Option<OptionValue>>) -> u64 {
    if 4 < options.len() {
        match options[4] {
            Some(OptionValue::Integer(value)) => if value == 0 {
                5
            } else {
                wrapped(value)
            },
            _ => 5,
        }
    } else {
        5
    }
}

/// Takes a whole number as an unsigned one.
fn wrap(value: i64) -> (wrapped_value: u64)
    ensures
        wrapped_value == wrapped(value),
{
    if value >= 0 {
        value as u64
    } else {
        u64::MAX - ((-(value + 1)) as u64)
    }
}

/// The text of the option at `index`.
fn text_at(options: &[Option<OptionValue>], index: usize) -> (text: Option<String>)
    ensures
        text == spec_text_at(options@, index as int),
{
    if index < options.len() {
        match &options[index] {
            Some(OptionValue::String(text)) => Some(text.clone()),
            _ => None,
        }
    } else {
        None
    }
}

/// The record of the clip that the options of a command describe. The options are, in this
/// order: name, description, locator, start, length. The first three must be texts; where one
/// is missing there is no record.
pub fn option_fx(discord: DiscordOrigin, options: &[Option<OptionValue>]) -> (fx: Option<Fx>)
    ensures
        match fx {
            Some(fx) => {
                &&& spec_text_at(options@, 0) == Some(fx.name)
                &&& spec_text_at(options@, 1) == Some(fx.description)
                &&& spec_text_at(options@, 2) == Some(fx.media.url)
                &&& fx.media.start == spec_start(options@)
                &&& fx.media.length == spec_length(options@)
                &&& fx.discord == discord
            },
            None => {
                ||| spec_text_at(options@, 0) is None
                ||| spec_text_at(options@, 1) is None
                ||| spec_text_at(options@, 2) is None
            },
        },
{
    let start = if 3 < options.len() {
        match &options[3] {
            Some(OptionValue::Integer(value)) => wrap(*value),
            _ => 0,
        }
    } else {
        0
    };
    let length = if 4 < options.len() {
        match &options[4] {
            Some(OptionValue::Integer(value)) => if *value == 0 {
                5
            } else {
                wrap(*value)
            },
            _ => 5,
        }
    } else {
        5
    };
    FxArgument {
        name: text_at(options, 0),
        description: text_at(options, 1),
        url: text_at(options, 2),
        start,
        length,
        discord,
    }.to_fx()
}

/// Calls `rand::distributions::Uniform::from` on the range from 0 to `len` and samples it once
/// with `rand::thread_rng`. Trusted: the sample lies in the range. The range must not be empty,
/// or the outside constructor panics.
#[verifier::external_body]
fn random_index(len: usize) -> (index: usize)
    requires
        len > 0,
    ensures
        index < len,
{
    Uniform::from(0..len).sample(&mut rand::thread_rng())
}

/// A choice of messages, of which one is taken by chance.
pub struct RandomMessage<'m>(&'m [&'static str]);

impl<'m> RandomMessage<'m> {
    /// The messages to choose from.
    pub closed spec fn messages(&self) -> Seq<&'static str> {
        self.0@
    }

    /// A choice among `messages`.
    pub fn new(messages: &'m [&'static str]) -> (choice: Self)
        ensures
            choice.messages() == messages@,
    {
        RandomMessage(messages)
    }

    /// The message at `index`.
    pub fn get(&self, index: usize) -> (message: &str)
        requires
            index < self.messages().len(),
        ensures
            message == self.messages()[index as int],
    {
        self.0[index]
    }

    /// One of the messages, taken by chance. There must be a message to take.
    pub fn next(&self) -> (message: &str)
        requires
            self.messages().len() > 0,
        ensures
            self.messages().contains(message),
    {
        let index = random_index(self.0.len());
        self.get(index)
    }
}

} // verus!
