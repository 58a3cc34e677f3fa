//! Which events a target accepts at submission.

use super::binary64::Binary64;
use super::model::{
    zero, Action, Config, Error, Event, Key, Mode, Position, CAP_LOGICAL, CAP_PHYSICAL, CAP_POINTER,
    CAP_SCROLL, CAP_TEXT,
};
use crate::text::{byte_len, characters};
use vstd::prelude::*;

verus! {

/// The longest key name, in bytes.
pub const MAX_KEY_NAME: usize = 63;

pub open spec fn alphanumeric(c: char) -> bool {
    ||| '0' <= c <= '9'
    ||| 'A' <= c <= 'Z'
    ||| 'a' <= c <= 'z'
}

pub open spec fn alphanumeric_text(text: Seq<char>) -> bool {
    forall|i: int| 0 <= i < text.len() ==> alphanumeric(#[trigger] text[i])
}

/// A key name is not empty, not too long and holds no NUL.
pub open spec fn key_name_allowed(name: Seq<char>) -> bool {
    &&& name.len() > 0
    &&& byte_len(name) <= MAX_KEY_NAME
    &&& !name.contains('\0')
}

/// Whether a position lies on the surface that the target currently describes.
pub open spec fn position_verdict(config: Config, position: Position) -> Result<(), Error> {
    if position.revision != config.geometry.revision {
        Err(Error::Stale)
    } else if position.x.finite() && position.y.finite() && !position.x.less(zero())
        && !position.y.less(zero()) && !position.x.at_least(config.geometry.width)
        && !position.y.at_least(config.geometry.height) {
        Ok(())
    } else {
        Err(Error::Invalid)
    }
}

/// The capability bit that an accepted event needs, if it needs one: releases and
/// repeats of a key were authorized when it went down.
pub open spec fn needed_capability(event: Event) -> Option<u32> {
    match event {
        Event::Key { action: Action::Down, key: Key::Physical(_), .. } => Some(CAP_PHYSICAL),
        Event::Key { action: Action::Down, key: Key::Logical(_), .. } => Some(CAP_LOGICAL),
        Event::Key { .. } => None,
        Event::Text(_) => Some(CAP_TEXT),
        Event::Motion(_) => Some(CAP_POINTER),
        Event::Button { .. } => Some(CAP_POINTER),
        Event::Scroll { .. } => Some(CAP_SCROLL),
    }
}

/// What is wrong with an event by itself, before the target's capabilities are asked.
pub open spec fn form_verdict(config: Config, mode: Mode, event: Event) -> Result<(), Error> {
    match event {
        Event::Key { press, action, key, modifiers } => {
            if press == 0 || modifiers > 0xff {
                Err(Error::Invalid)
            } else if action == Action::Repeat && mode == Mode::Physical {
                Err(Error::Unsupported)
            } else if !key_name_allowed(key.name()) {
                Err(Error::Invalid)
            } else if action == Action::Down && key is Physical && !alphanumeric_text(key.name()) {
                Err(Error::Invalid)
            } else {
                Ok(())
            }
        },
        Event::Text(text) => {
            if 0 < text@.len() && byte_len(text@) <= config.max_text_bytes {
                Ok(())
            } else {
                Err(Error::Invalid)
            }
        },
        Event::Motion(position) => position_verdict(config, position),
        Event::Button { button, action, position } => {
            if !(1 <= button <= 32) || action == Action::Repeat || !position.x.finite()
                || !position.y.finite() {
                Err(Error::Invalid)
            } else if action == Action::Down {
                position_verdict(config, position)
            } else {
                Ok(())
            }
        },
        Event::Scroll { x, y, position, .. } => {
            if x.finite() && y.finite() {
                position_verdict(config, position)
            } else {
                Err(Error::Invalid)
            }
        },
    }
}

/// Whether a target with this configuration takes the event from a controller in
/// this mode, and which error it answers otherwise.
pub open spec fn verdict(config: Config, mode: Mode, event: Event) -> Result<(), Error> {
    if form_verdict(config, mode, event) is Err {
        form_verdict(config, mode, event)
    } else {
        match needed_capability(event) {
            Some(capability) if config.capabilities & capability == 0 => Err(Error::Unsupported),
            _ => Ok(()),
        }
    }
}

fn allowed_name(name: &str) -> (result: bool)
    ensures
        result == key_name_allowed(name@),
{
    if name.is_empty() || name.as_bytes().len() > MAX_KEY_NAME {
        return false;
    }
    let chars = characters(name);
    let mut i: usize = 0;
    while i < chars.len()
        invariant
            i <= chars.len(),
            chars@ == name@,
            forall|j: int| 0 <= j < i ==> chars[j] != '\0',
        decreases chars.len() - i,
    {
        if chars[i] == '\0' {
            assert(name@[i as int] == '\0');
            return false;
        }
        i = i + 1;
    }
    true
}

fn all_alphanumeric(name: &str) -> (result: bool)
    ensures
        result == alphanumeric_text(name@),
{
    let chars = characters(name);
    let mut i: usize = 0;
    while i < chars.len()
        invariant
            i <= chars.len(),
            chars@ == name@,
            forall|j: int| 0 <= j < i ==> alphanumeric(chars[j]),
        decreases chars.len() - i,
    {
        let c = chars[i];
        if !(('0' <= c && c <= '9') || ('A' <= c && c <= 'Z') || ('a' <= c && c <= 'z')) {
            assert(!alphanumeric(name@[i as int]));
            return false;
        }
        i = i + 1;
    }
    true
}

/// Checks that a position lies on the target's current surface.
pub fn position(config: &Config, at: &Position) -> (result: Result<(), Error>)
    ensures
        result == position_verdict(*config, *at),
{
    if at.revision != config.geometry.revision {
        return Err(Error::Stale);
    }
    let origin = Binary64 { bits: 0 };
    if !at.x.is_finite() || !at.y.is_finite() || at.x.below(origin)
        || at.y.below(origin) || at.x.reaches(config.geometry.width)
        || at.y.reaches(config.geometry.height) {
        return Err(Error::Invalid);
    }
    Ok(())
}

/// Decides whether an event may enter the queue.
pub fn validate(config: &Config, mode: Mode, event: &Event) -> (result: Result<(), Error>)
    ensures
        result == verdict(*config, mode, *event),
{
    let capability: u32 = match event {
        Event::Key { press, action, key, modifiers } => {
            if *press == 0 || *modifiers > 0xff {
                return Err(Error::Invalid);
            }
            if *action == Action::Repeat && mode == Mode::Physical {
                return Err(Error::Unsupported);
            }
            let (name, capability): (&String, u32) = match key {
                Key::Physical(name) => (name, CAP_PHYSICAL),
                Key::Logical(name) => (name, CAP_LOGICAL),
            };
            if !allowed_name(name.as_str()) {
                return Err(Error::Invalid);
            }
            if *action != Action::Down {
                return Ok(());
            }
            if capability == CAP_PHYSICAL && !all_alphanumeric(name.as_str()) {
                return Err(Error::Invalid);
            }
            capability
        },
        Event::Text(text) => {
            if text.as_str().is_empty() || text.as_str().as_bytes().len() > config.max_text_bytes {
                return Err(Error::Invalid);
            }
            CAP_TEXT
        },
        Event::Motion(at) => {
            match position(config, at) {
                Ok(()) => {},
                Err(error) => return Err(error),
            }
            CAP_POINTER
        },
        Event::Button { button, action, position: at } => {
            if *button < 1 || *button > 32 || *action == Action::Repeat || !at.x.is_finite()
                || !at.y.is_finite() {
                return Err(Error::Invalid);
            }
            // A release does not depend on the current geometry.
            if *action == Action::Down {
                match position(config, at) {
                    Ok(()) => {},
                    Err(error) => return Err(error),
                }
            }
            CAP_POINTER
        },
        Event::Scroll { x, y, position: at, .. } => {
            if !x.is_finite() || !y.is_finite() {
                return Err(Error::Invalid);
            }
            match position(config, at) {
                Ok(()) => {},
                Err(error) => return Err(error),
            }
            CAP_SCROLL
        },
    };
    if config.capabilities & capability == 0 {
        return Err(Error::Unsupported);
    }
    Ok(())
}

/// On a valid surface an accepted position is at least zero and less than the extent.
pub proof fn accepted_positions_lie_on_the_surface(config: Config, position: Position)
    requires
        config.geometry.spec_valid(),
        position_verdict(config, position) is Ok,
    ensures
        0 <= position.x.scaled() < config.geometry.width.scaled(),
        0 <= position.y.scaled() < config.geometry.height.scaled(),
{
}

/// A release of a key or a button is never refused for the target's geometry or,
/// for a key, its capabilities: what went down can come up.
pub proof fn releases_need_no_geometry(config: Config, moved: Config, mode: Mode, event: Event)
    requires
        event matches Event::Key { action: Action::Up, .. } || event matches Event::Button {
            action: Action::Up,
            ..
        },
        moved == (Config { geometry: moved.geometry, ..config }),
    ensures
        verdict(config, mode, event) == verdict(moved, mode, event),
{
}

/// An accepted event's text is bounded, whatever the configuration of the target.
pub proof fn accepted_text_is_bounded(config: Config, mode: Mode, event: Event)
    requires
        verdict(config, mode, event) is Ok,
    ensures
        event.text_bytes() <= MAX_KEY_NAME || event.text_bytes() <= config.max_text_bytes,
{
}

} // verus!
