//! The entity graph's rules: which projects, applications and files are
//! recorded, and how a co-occurrence of two of them is keyed.
use crate::text::{chars_of, lemma_lex_antisymmetric, lemma_lex_total, lex_le, lex_le_exec, same, string_of, trim, trim_vec};
use vstd::prelude::*;

verus! {

#[derive(Clone, Copy, Debug, PartialEq, Eq, Structural)]
pub enum EntityKind {
    Project,
    App,
    File,
}

pub open spec fn kind_name(k: EntityKind) -> Seq<char> {
    match k {
        EntityKind::Project => "project"@,
        EntityKind::App => "app"@,
        EntityKind::File => "file"@,
    }
}

impl EntityKind {
    pub fn as_str(&self) -> (r: &'static str)
        ensures
            r@ == kind_name(*self),
    {
        match self {
            EntityKind::Project => "project",
            EntityKind::App => "app",
            EntityKind::File => "file",
        }
    }
}

/// An entity as stored: its name, kind, how often it was seen, and when
/// last.
#[derive(Clone, Debug, PartialEq, Eq)]
pub struct Entity {
    pub name: String,
    pub kind: String,
    pub mention_count: i64,
    pub last_seen: String,
}

/// The name under which an observation is recorded: trimmed; nothing for
/// a blank name or "unknown".
pub open spec fn observed_name(name: Seq<char>) -> Option<Seq<char>> {
    let t = trim(name);
    if t.len() == 0 || t == "unknown"@ {
        None
    } else {
        Some(t)
    }
}

pub fn observed(name: &str) -> (r: Option<String>)
    ensures
        match observed_name(name@) {
            Some(t) => r matches Some(s) && s@ == t,
            None => r is None,
        },
{
    let t = trim_vec(&chars_of(name));
    if t.len() == 0 || same(&t, &chars_of("unknown")) {
        return None;
    }
    Some(string_of(&t))
}

/// `(kind, name)` pairs ordered by kind, then name.
pub open spec fn pair_le(a: (Seq<char>, Seq<char>), b: (Seq<char>, Seq<char>)) -> bool {
    if a.0 != b.0 {
        lex_le(a.0, b.0)
    } else {
        lex_le(a.1, b.1)
    }
}

/// How a co-occurrence is keyed: both names trimmed, the two `(kind,
/// name)` ends in order; nothing for a blank name or an entity linked to
/// itself.
pub open spec fn link_key(a_name: Seq<char>, a_kind: EntityKind, b_name: Seq<char>, b_kind: EntityKind) -> Option<
    ((Seq<char>, Seq<char>), (Seq<char>, Seq<char>)),
> {
    let a = (kind_name(a_kind), trim(a_name));
    let b = (kind_name(b_kind), trim(b_name));
    if a.1.len() == 0 || b.1.len() == 0 || a == b {
        None
    } else if pair_le(a, b) {
        Some((a, b))
    } else {
        Some((b, a))
    }
}

/// Key a co-occurrence of two entities so that the same pair, in either
/// order, is one record.
pub fn link_key_of(a_name: &str, a_kind: EntityKind, b_name: &str, b_kind: EntityKind) -> (r: Option<
    ((String, String), (String, String)),
>)
    ensures
        match link_key(a_name@, a_kind, b_name@, b_kind) {
            Some((x, y)) => r matches Some((p, q)) && p.0@ == x.0 && p.1@ == x.1 && q.0@ == y.0 && q.1@ == y.1,
            None => r is None,
        },
{
    let an = trim_vec(&chars_of(a_name));
    let bn = trim_vec(&chars_of(b_name));
    let ak = chars_of(a_kind.as_str());
    let bk = chars_of(b_kind.as_str());
    if an.len() == 0 || bn.len() == 0 {
        return None;
    }
    let same_kind = same(&ak, &bk);
    if same_kind && same(&an, &bn) {
        return None;
    }
    let a_first = if !same_kind {
        lex_le_exec(&ak, &bk)
    } else {
        lex_le_exec(&an, &bn)
    };
    let a = (string_of(&ak), string_of(&an));
    let b = (string_of(&bk), string_of(&bn));
    if a_first {
        Some((a, b))
    } else {
        Some((b, a))
    }
}

/// Linking `a` with `b` and linking `b` with `a` record the same pair.
pub proof fn law_links_are_symmetric(a_name: Seq<char>, a_kind: EntityKind, b_name: Seq<char>, b_kind: EntityKind)
    ensures
        link_key(a_name, a_kind, b_name, b_kind) == link_key(b_name, b_kind, a_name, a_kind),
{
    let a = (kind_name(a_kind), trim(a_name));
    let b = (kind_name(b_kind), trim(b_name));
    lemma_lex_total(a.0, b.0);
    lemma_lex_total(a.1, b.1);
    if pair_le(a, b) && pair_le(b, a) {
        if a.0 != b.0 {
            lemma_lex_antisymmetric(a.0, b.0);
        } else {
            lemma_lex_antisymmetric(a.1, b.1);
        }
    }
}

} // verus!
