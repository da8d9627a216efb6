//! Configuration: property pointers, and which sections a reset restores.

use vstd::prelude::*;

verus! {

/// The text with each dot replaced by a slash.
pub open spec fn dots_to_slashes(s: Seq<char>) -> Seq<char> {
    s.map_values(|c: char| if c == '.' { '/' } else { c })
}

/// A pointer written with dots (`upgrade.auto`) as a JSON pointer
/// (`/upgrade/auto`): dots become slashes, and a leading slash is added
/// where there is none.
pub open spec fn json_pointer_of(s: Seq<char>) -> Seq<char> {
    let p = dots_to_slashes(s);
    if p.len() > 0 && p[0] == '/' {
        p
    } else {
        seq!['/'] + p
    }
}

/// Ensures that a string is a valid JSON pointer: replaces dots with
/// slashes and ensures a leading slash.
pub fn json_pointer(pointer: &str) -> (r: String)
    ensures
        r@ == json_pointer_of(pointer@),
{
    let n = pointer.unicode_len();
    let leading = n > 0 && (pointer.get_char(0) == '/' || pointer.get_char(0) == '.');
    let mut out = String::new();
    if !leading {
        out.append("/");
    }
    let ghost start = out@;
    proof {
        reveal_strlit("/");
        assert(start.len() == if leading { 0int } else { 1int });
    }
    let mut i: usize = 0;
    while i < n
        invariant
            i <= n,
            n == pointer@.len(),
            out@ == start + dots_to_slashes(pointer@).take(i as int),
            start.len() <= 1,
            start.len() == 1 ==> start[0] == '/',
        decreases n - i,
    {
        let c = pointer.get_char(i);
        let ghost before = out@;
        if c == '.' {
            out.append("/");
            proof {
                reveal_strlit("/");
            }
        } else {
            out.append(pointer.substring_char(i, i + 1));
        }
        proof {
            assert(dots_to_slashes(pointer@).take(i + 1) =~= dots_to_slashes(pointer@).take(
                i as int,
            ).push(if c == '.' { '/' } else { c }));
            assert(out@ =~= start + dots_to_slashes(pointer@).take(i + 1));
        }
        i = i + 1;
    }
    proof {
        assert(dots_to_slashes(pointer@).take(n as int) =~= dots_to_slashes(pointer@));
        if leading {
            assert(start =~= Seq::<char>::empty());
            assert(out@ =~= dots_to_slashes(pointer@));
        } else {
            assert(start =~= seq!['/']);
        }
    }
    out
}

/// A part of the configuration that can be reset to its defaults.
#[derive(Debug, Clone, Copy, PartialEq, Eq, Structural)]
pub enum ConfigSection {
    /// The whole configuration.
    All,
    /// The configuration of the server.
    Serve,
    /// The configuration of upgrades.
    Upgrade,
}

/// A configuration property name that does not exist.
#[derive(Debug)]
pub struct NoSuchProperty {
    pub property: String,
}

impl NoSuchProperty {
    /// The error message.
    pub fn message(&self) -> (r: String)
        ensures
            r@ == "No configuration property named: "@ + self.property@,
    {
        "No configuration property named: ".to_owned().concat(self.property.as_str())
    }
}

/// The section that resetting `property` restores: `all`, `serve` or
/// `upgrade`; any other name is an error.
pub open spec fn reset_section_of(property: Seq<char>) -> Option<ConfigSection> {
    if property == "all"@ {
        Some(ConfigSection::All)
    } else if property == "serve"@ {
        Some(ConfigSection::Serve)
    } else if property == "upgrade"@ {
        Some(ConfigSection::Upgrade)
    } else {
        None
    }
}

/// Decides what resetting the configuration property `property` restores
/// to its defaults.
pub fn section_to_reset(property: &str) -> (r: Result<ConfigSection, NoSuchProperty>)
    ensures
        match reset_section_of(property@) {
            Some(section) => r == Ok::<ConfigSection, NoSuchProperty>(section),
            None => r matches Err(e) && e.property@ == property@,
        },
{
    if crate::text::same_text(property, "all") {
        Ok(ConfigSection::All)
    } else if crate::text::same_text(property, "serve") {
        Ok(ConfigSection::Serve)
    } else if crate::text::same_text(property, "upgrade") {
        Ok(ConfigSection::Upgrade)
    } else {
        Err(NoSuchProperty { property: property.to_owned() })
    }
}

/// A configuration: the section of the server and that of upgrades.
#[derive(Debug)]
pub struct Config<S, U> {
    pub serve: S,
    pub upgrade: U,
}

/// The configuration that resetting `section` of `stored` gives: the
/// defaults for the whole, or the default of that section with the other
/// section kept.
pub open spec fn reset_result<S, U>(
    stored: Config<S, U>,
    defaults: Config<S, U>,
    section: ConfigSection,
) -> Config<S, U> {
    match section {
        ConfigSection::All => defaults,
        ConfigSection::Serve => Config { serve: defaults.serve, upgrade: stored.upgrade },
        ConfigSection::Upgrade => Config { serve: stored.serve, upgrade: defaults.upgrade },
    }
}

/// Resets the configuration property `property` of the stored
/// configuration to its default: `all`, `serve` or `upgrade`. Any other
/// name is an error, and nothing is to be written. Reading the stored
/// configuration and writing the result are left to the caller.
pub fn reset<S, U>(stored: Config<S, U>, defaults: Config<S, U>, property: &str) -> (r: Result<
    Config<S, U>,
    NoSuchProperty,
>)
    ensures
        match reset_section_of(property@) {
            Some(section) => r == Ok::<Config<S, U>, NoSuchProperty>(
                reset_result(stored, defaults, section),
            ),
            None => r matches Err(e) && e.property@ == property@,
        },
{
    match section_to_reset(property) {
        Ok(ConfigSection::All) => Ok(defaults),
        Ok(ConfigSection::Serve) => Ok(Config { serve: defaults.serve, upgrade: stored.upgrade }),
        Ok(ConfigSection::Upgrade) => Ok(Config { serve: stored.serve, upgrade: defaults.upgrade }),
        Err(e) => Err(e),
    }
}

} // verus!
