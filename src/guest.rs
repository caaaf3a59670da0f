//! The answers of the two sample guests that ship with the trigger.
//!
//! The plain guest greets every line. The fact guest looks for an animal in
//! the line and answers with a fact about it, fetched from a web service by
//! its host; any other line gets a fixed refusal.
use vstd::prelude::*;
use vstd::string::StringExecFns;
use crate::text::{occurs_in, text_contains};

verus! {

/// What a line asks the fact guest for.
#[derive(Clone, Copy, Debug, PartialEq, Eq, Structural)]
pub enum Command {
    CatFact,
    DogFact,
    Unknown,
}

/// A line that mentions "cat" asks for a cat fact, else one that mentions
/// "dog" for a dog fact.
pub open spec fn command_of(line: Seq<char>) -> Command {
    if occurs_in(line, "cat"@) {
        Command::CatFact
    } else if occurs_in(line, "dog"@) {
        Command::DogFact
    } else {
        Command::Unknown
    }
}

pub open spec fn fact_site() -> Seq<char> {
    "https://some-random-api.ml/"@
}

pub open spec fn refusal() -> Seq<char> {
    "You have chosen... unwisely.\n"@
}

pub open spec fn greeting() -> Seq<char> {
    "\u{a1}HOLA FROM BARCELONA!\n"@
}

/// The plain guest's answer, the same for every line.
pub fn greet(line: &str) -> (r: String)
    ensures
        r@ == greeting(),
{
    String::from_str("\u{a1}HOLA FROM BARCELONA!\n")
}

/// Reads what a line asks the fact guest for.
pub fn parse_command(line: &str) -> (r: Command)
    ensures
        r == command_of(line@),
{
    if text_contains(line, "cat") {
        Command::CatFact
    } else if text_contains(line, "dog") {
        Command::DogFact
    } else {
        Command::Unknown
    }
}

impl Command {
    /// The category of fact to fetch, if the command needs one.
    pub fn category(&self) -> (r: Option<&'static str>)
        ensures
            match self {
                Command::CatFact => r matches Some(c) && c@ == "animal/cat"@,
                Command::DogFact => r matches Some(c) && c@ == "animal/dog"@,
                Command::Unknown => r is None,
            },
    {
        match self {
            Command::CatFact => Some("animal/cat"),
            Command::DogFact => Some("animal/dog"),
            Command::Unknown => None,
        }
    }

    /// Where to fetch the fact from, if the command needs one.
    pub fn fact_url(&self) -> (r: Option<String>)
        ensures
            match self {
                Command::CatFact => r matches Some(u) && u@ == fact_site() + "animal/cat"@,
                Command::DogFact => r matches Some(u) && u@ == fact_site() + "animal/dog"@,
                Command::Unknown => r is None,
            },
    {
        match self.category() {
            Some(c) => Some(String::from_str("https://some-random-api.ml/").concat(c)),
            None => None,
        }
    }

    /// The fact guest's answer, given the fact its host fetched (unused when
    /// the command needs none): the fact on a line of its own, or the refusal.
    pub fn run(&self, fact: &str) -> (r: String)
        ensures
            match self {
                Command::Unknown => r@ == refusal(),
                _ => r@ == fact@ + "\n"@,
            },
    {
        match self {
            Command::Unknown => String::from_str("You have chosen... unwisely.\n"),
            _ => String::from_str(fact).concat("\n"),
        }
    }
}

} // verus!
