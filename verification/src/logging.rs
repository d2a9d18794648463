//! The kernel's log: which messages pass, and what a line looks like.

use vstd::prelude::*;
use crate::console::{colored, decimal, print_in_color, push_all, push_decimal};

verus! {

/// How grave a message is.
#[derive(Clone, Copy, Debug, PartialEq, Eq, Structural)]
pub enum Level {
    Error,
    Warn,
    Info,
    Debug,
    Trace,
}

/// Up to which level messages pass.
#[derive(Clone, Copy, Debug, PartialEq, Eq, Structural)]
pub enum LevelFilter {
    Off,
    Error,
    Warn,
    Info,
    Debug,
    Trace,
}

/// The colour in which messages of level `level` are written.
pub open spec fn level_color(level: Level) -> u8 {
    match level {
        Level::Error => 31,
        Level::Warn => 34,
        Level::Info => 33,
        Level::Debug => 32,
        Level::Trace => 90,
    }
}

/// The colour in which messages of level `level` are written.
pub fn level_to_color_code(level: Level) -> (code: u8)
    ensures
        code == level_color(level),
{
    match level {
        Level::Error => 31,  // Red
        Level::Warn => 34,  // BrightYellow
        Level::Info => 33,  // Blue
        Level::Debug => 32,  // Green
        Level::Trace => 90,  // BrightBlack
    }
}

/// The name of `level` in capitals, with blanks before it up to five
/// characters.
pub open spec fn level_label(level: Level) -> Seq<u8> {
    match level {
        Level::Error => seq![69u8, 82u8, 82u8, 79u8, 82u8],
        Level::Warn => seq![32u8, 87u8, 65u8, 82u8, 78u8],
        Level::Info => seq![32u8, 73u8, 78u8, 70u8, 79u8],
        Level::Debug => seq![68u8, 69u8, 66u8, 85u8, 71u8],
        Level::Trace => seq![84u8, 82u8, 65u8, 67u8, 69u8],
    }
}

/// The filter that the setting `log` asks for: the name of a level in
/// small letters lets messages up to that level pass; anything else, or
/// no setting, lets none pass.
pub open spec fn filter_of(log: Option<Seq<u8>>) -> LevelFilter {
    match log {
        Some(name) => if name == seq![101u8, 114u8, 114u8, 111u8, 114u8] {
            LevelFilter::Error
        } else if name == seq![119u8, 97u8, 114u8, 110u8] {
            LevelFilter::Warn
        } else if name == seq![105u8, 110u8, 102u8, 111u8] {
            LevelFilter::Info
        } else if name == seq![100u8, 101u8, 98u8, 117u8, 103u8] {
            LevelFilter::Debug
        } else if name == seq![116u8, 114u8, 97u8, 99u8, 101u8] {
            LevelFilter::Trace
        } else {
            LevelFilter::Off
        },
        None => LevelFilter::Off,
    }
}

/// Whether `name` is the text `word`.
pub fn is_word(name: &[u8], word: &[u8]) -> (same: bool)
    ensures
        same == (name@ == word@),
{
    if name.len() != word.len() {
        return false;
    }
    let mut i: usize = 0;
    while i < name.len()
        invariant
            i <= name.len(),
            name.len() == word.len(),
            forall|j: int| 0 <= j < i ==> name@[j] == word@[j],
        decreases name.len() - i,
    {
        if name[i] != word[i] {
            return false;
        }
        i += 1;
    }
    proof {
        assert(name@ =~= word@);
    }
    true
}

/// The filter with which the log starts, given the setting `log`.
pub fn init(log: Option<&[u8]>) -> (filter: LevelFilter)
    ensures
        filter == filter_of(
            match log {
                Some(name) => Some(name@),
                None => None,
            },
        ),
{
    match log {
        Some(name) => {
            let error: [u8; 5] = [101, 114, 114, 111, 114];
            let warn: [u8; 4] = [119, 97, 114, 110];
            let info: [u8; 4] = [105, 110, 102, 111];
            let debug: [u8; 5] = [100, 101, 98, 117, 103];
            let trace: [u8; 5] = [116, 114, 97, 99, 101];
            proof {
                assert(error@ =~= seq![101u8, 114u8, 114u8, 111u8, 114u8]);
                assert(warn@ =~= seq![119u8, 97u8, 114u8, 110u8]);
                assert(info@ =~= seq![105u8, 110u8, 102u8, 111u8]);
                assert(debug@ =~= seq![100u8, 101u8, 98u8, 117u8, 103u8]);
                assert(trace@ =~= seq![116u8, 114u8, 97u8, 99u8, 101u8]);
            }
            if is_word(name, error.as_slice()) {
                LevelFilter::Error
            } else if is_word(name, warn.as_slice()) {
                LevelFilter::Warn
            } else if is_word(name, info.as_slice()) {
                LevelFilter::Info
            } else if is_word(name, debug.as_slice()) {
                LevelFilter::Debug
            } else if is_word(name, trace.as_slice()) {
                LevelFilter::Trace
            } else {
                LevelFilter::Off
            }
        },
        None => LevelFilter::Off,
    }
}

/// The line of a message before it is coloured: the level, the core, a
/// dash for the task, the message, and a line feed.
pub open spec fn log_text(level: Level, hart_id: usize, message: Seq<u8>) -> Seq<u8> {
    seq![91u8] + level_label(level) + seq![93u8, 91u8] + decimal(hart_id as nat) + seq![
        44u8,
        45u8,
        93u8,
        32u8,
    ] + message + seq![10u8]
}

/// The logger of the kernel, which lets every message pass.
#[derive(Clone, Copy, Debug)]
pub struct SimpleLogger;

impl SimpleLogger {
    /// Whether messages of level `level` are written: all are.
    pub fn enabled(&self, level: Level) -> (enabled: bool)
        ensures
            enabled,
    {
        true
    }

    /// The bytes that go to the console for `message` of level `level`
    /// from core `hart_id`: the line of the message in the colour of the
    /// level.
    pub fn log(&self, level: Level, hart_id: usize, message: &[u8]) -> (out: Vec<u8>)
        ensures
            out@ == colored(log_text(level, hart_id, message@), level_color(level)),
    {
        let mut text: Vec<u8> = Vec::new();
        if !self.enabled(level) {
            return print_in_color(text.as_slice(), level_to_color_code(level));
        }
        text.push(91);
        match level {
            Level::Error => {
                push_all(&mut text, [69, 82, 82, 79, 82].as_slice());
            },
            Level::Warn => {
                push_all(&mut text, [32, 87, 65, 82, 78].as_slice());
            },
            Level::Info => {
                push_all(&mut text, [32, 73, 78, 70, 79].as_slice());
            },
            Level::Debug => {
                push_all(&mut text, [68, 69, 66, 85, 71].as_slice());
            },
            Level::Trace => {
                push_all(&mut text, [84, 82, 65, 67, 69].as_slice());
            },
        }
        proof {
            assert(text@ =~= seq![91u8] + level_label(level));
        }
        text.push(93);
        text.push(91);
        push_decimal(&mut text, hart_id);
        text.push(44);
        text.push(45);
        text.push(93);
        text.push(32);
        push_all(&mut text, message);
        text.push(10);
        proof {
            assert(text@ =~= log_text(level, hart_id, message@));
        }
        print_in_color(text.as_slice(), level_to_color_code(level))
    }

    /// Nothing is held back, so there is nothing to flush.
    pub fn flush(&self) {
    }
}

} // verus!
