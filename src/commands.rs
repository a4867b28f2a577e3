//! Changes to the stored settings and to the registry of tracked mods.

use vstd::prelude::*;
use crate::badge_options::{BadgePreferences, Color};
use crate::cli::{Mod, SetArgs};
use crate::error::Error;
use crate::json_data::Input;

verus! {

/// The new value of a setting: the given one, or the current one.
pub open spec fn updated(given: Option<String>, current: String) -> Seq<char> {
    match given {
        Some(v) => v@,
        None => current@,
    }
}

/// Moves a given text out of `slot`, leaving an empty one in its place.
fn take_text(slot: &mut Option<String>) -> (r: Option<String>)
    ensures
        r == *old(slot),
        (*old(slot)) is Some ==> (*final(slot) matches Some(e) && e@.len() == 0),
        (*old(slot)) is None ==> (*final(slot)) is None,
{
    let r = slot.take();
    if r.is_some() {
        *slot = Some(String::new());
    }
    r
}

impl Input {
    /// Applies the credential and repository settings of `from`. The gist id
    /// is exchanged, so that `from.gist` then holds the id it replaced. Returns
    /// whether anything changed, a credential set earlier in `from` included.
    pub fn update(&mut self, from: &mut SetArgs) -> (r: bool)
        ensures
            final(self).git_token@ == updated(old(from).git, old(self).git_token),
            final(self).nexus_key@ == updated(old(from).nexus, old(self).nexus_key),
            final(self).gist_id@ == updated(old(from).gist, old(self).gist_id),
            final(self).repo@ == updated(old(from).repo, old(self).repo),
            final(self).owner@ == updated(old(from).owner, old(self).owner),
            final(self).mods == old(self).mods,
            old(from).gist is Some ==> (final(from).gist matches Some(prev) && prev@ == old(
                self,
            ).gist_id@),
            old(from).gist is None ==> final(from).gist is None,
            final(from).modified.git_token == (old(from).modified.git_token || old(from).git is Some),
            final(from).modified.nexus_key == (old(from).modified.nexus_key || old(from).nexus is Some),
            final(from).modified.gist_id == (old(from).modified.gist_id || old(from).gist is Some),
            final(from).style == old(from).style,
            final(from).count == old(from).count,
            final(from).format == old(from).format,
            final(from).label == old(from).label,
            final(from).label_color == old(from).label_color,
            final(from).color == old(from).color,
            r == (final(from).modified.git_token || final(from).modified.nexus_key
                || final(from).modified.gist_id || old(from).repo is Some || old(from).owner is Some),
    {
        let mut modified = false;
        match take_text(&mut from.git) {
            Some(token) => {
                from.modified.git_token = true;
                self.git_token = token;
            },
            None => {},
        }
        match take_text(&mut from.nexus) {
            Some(key) => {
                from.modified.nexus_key = true;
                self.nexus_key = key;
            },
            None => {},
        }
        match from.gist.take() {
            Some(id) => {
                from.modified.gist_id = true;
                let mut prev = id;
                std::mem::swap(&mut self.gist_id, &mut prev);
                from.gist = Some(prev);
            },
            None => {},
        }
        match take_text(&mut from.repo) {
            Some(repo) => {
                modified = true;
                self.repo = repo;
            },
            None => {},
        }
        match take_text(&mut from.owner) {
            Some(owner) => {
                modified = true;
                self.owner = owner;
            },
            None => {},
        }
        from.modified.any() || modified
    }
}

fn take_color(slot: &mut Option<Color>) -> (r: Option<Color>)
    ensures
        r == *old(slot),
        (*old(slot)) is Some ==> (*final(slot) matches Some(c) && c.0 is None),
        (*old(slot)) is None ==> (*final(slot)) is None,
{
    let r = slot.take();
    if r.is_some() {
        *slot = Some(Color(None));
    }
    r
}

impl BadgePreferences {
    /// Applies the style settings of `from`; returns whether any was given.
    pub fn update(&mut self, from: &mut SetArgs) -> (r: bool)
        ensures
            final(self).style == (match old(from).style {
                Some(s) => s,
                None => old(self).style,
            }),
            final(self).count == (match old(from).count {
                Some(c) => c,
                None => old(self).count,
            }),
            final(self).format == (match old(from).format {
                Some(f) => f,
                None => old(self).format,
            }),
            final(self).label@ == updated(old(from).label, old(self).label),
            final(self).label_color == (match old(from).label_color {
                Some(c) => c,
                None => old(self).label_color,
            }),
            final(self).color == (match old(from).color {
                Some(c) => c,
                None => old(self).color,
            }),
            final(self).label_color_light_mode == old(self).label_color_light_mode,
            final(from).git == old(from).git,
            final(from).nexus == old(from).nexus,
            final(from).gist == old(from).gist,
            final(from).owner == old(from).owner,
            final(from).repo == old(from).repo,
            final(from).modified == old(from).modified,
            r == (old(from).style is Some || old(from).count is Some || old(from).format is Some
                || old(from).label is Some || old(from).label_color is Some
                || old(from).color is Some),
    {
        let mut modified = false;
        match from.style {
            Some(style) => {
                modified = true;
                self.set_style(style);
            },
            None => {},
        }
        match from.count {
            Some(count_type) => {
                modified = true;
                self.count = count_type;
            },
            None => {},
        }
        match from.format {
            Some(format) => {
                modified = true;
                self.format = format;
            },
            None => {},
        }
        match take_text(&mut from.label) {
            Some(label) => {
                modified = true;
                self.label = label;
            },
            None => {},
        }
        match take_color(&mut from.label_color) {
            Some(color) => {
                modified = true;
                self.label_color = color;
            },
            None => {},
        }
        match take_color(&mut from.color) {
            Some(color) => {
                modified = true;
                self.color = color;
            },
            None => {},
        }
        modified
    }
}

/// Whether `m` is registered.
pub open spec fn is_tracked(mods: Seq<Mod>, m: Mod) -> bool {
    exists|i: int| 0 <= i < mods.len() && #[trigger] mods[i].same(&m)
}

fn position(mods: &Vec<Mod>, details: &Mod) -> (r: Option<usize>)
    ensures
        match r {
            Some(i) => i < mods@.len() && mods@[i as int].same(details) && forall|j: int|
                0 <= j < i ==> !#[trigger] mods@[j].same(details),
            None => !is_tracked(mods@, *details),
        },
{
    let n = mods.len();
    let mut i: usize = 0;
    while i < n
        invariant
            n == mods@.len(),
            i <= n,
            forall|j: int| 0 <= j < i ==> !#[trigger] mods@[j].same(details),
        decreases n - i,
    {
        if mods[i] == *details {
            return Some(i);
        }
        i = i + 1;
    }
    None
}

fn add_to(mods: &mut Vec<Mod>, details: Mod) -> (r: Result<(), Error>)
    ensures
        is_tracked(old(mods)@, details) ==> (r matches Err(Error::AlreadyTracked)) && final(mods)@
            == old(mods)@,
        !is_tracked(old(mods)@, details) ==> r is Ok && final(mods)@ == old(mods)@.push(details),
{
    if position(mods, &details).is_some() {
        return Err(Error::AlreadyTracked);
    }
    mods.push(details);
    Ok(())
}

fn remove_from(mods: &mut Vec<Mod>, details: &Mod) -> (r: Result<(), Error>)
    ensures
        !is_tracked(old(mods)@, *details) ==> (r matches Err(Error::NotTracked)) && final(mods)@
            == old(mods)@,
        is_tracked(old(mods)@, *details) ==> r is Ok && exists|i: int|
            0 <= i < old(mods)@.len() && old(mods)@[i].same(details) && (forall|j: int|
                0 <= j < i ==> !#[trigger] old(mods)@[j].same(details)) && final(mods)@ == old(
                mods,
            )@.update(i, old(mods)@.last()).drop_last(),
{
    match position(mods, details) {
        None => Err(Error::NotTracked),
        Some(i) => {
            mods.swap_remove(i);
            Ok(())
        },
    }
}

/// Changes to the registry of tracked mods.
pub trait Modify: Sized {
    /// The registered mods, in order.
    spec fn registry(&self) -> Seq<Mod>;

    /// Registers `details`; a mod that is already registered is refused.
    fn add_mod(&mut self, details: Mod) -> (r: Result<(), Error>)
        ensures
            is_tracked(old(self).registry(), details) ==> (r matches Err(Error::AlreadyTracked))
                && final(self).registry() == old(self).registry(),
            !is_tracked(old(self).registry(), details) ==> r is Ok && final(self).registry() == old(
                self,
            ).registry().push(details),
    ;

    /// Unregisters `details`: its first occurrence is replaced by the last
    /// mod of the registry. A mod that is not registered is refused.
    fn remove_mod(&mut self, details: &Mod) -> (r: Result<(), Error>)
        ensures
            !is_tracked(old(self).registry(), *details) ==> (r matches Err(Error::NotTracked))
                && final(self).registry() == old(self).registry(),
            is_tracked(old(self).registry(), *details) ==> r is Ok && exists|i: int|
                0 <= i < old(self).registry().len() && old(self).registry()[i].same(details) && (
                forall|j: int| 0 <= j < i ==> !#[trigger] old(self).registry()[j].same(details))
                    && final(self).registry() == old(self).registry().update(
                    i,
                    old(self).registry().last(),
                ).drop_last(),
    ;
}

impl Modify for Vec<Mod> {
    open spec fn registry(&self) -> Seq<Mod> {
        self@
    }

    fn add_mod(&mut self, details: Mod) -> (r: Result<(), Error>) {
        add_to(self, details)
    }

    fn remove_mod(&mut self, details: &Mod) -> (r: Result<(), Error>) {
        remove_from(self, details)
    }
}

} // verus!
