//! What changed on the machine, and how much it matters. Severity is
//! decided here by fixed rules, never by a model.
use crate::text::{chars_of, free_of, is_mark, lemma_free_of_concat, push_chars, push_signed_decimal, push_str, same, signed_decimal, string_of};
use vstd::prelude::*;

verus! {

/// How loudly a change should be surfaced: `Routine < Notable < Critical`.
#[derive(Clone, Copy, Debug, PartialEq, Eq, Structural, PartialOrd, Ord)]
pub enum Severity {
    /// Expected consequence of an update. Recorded, never announced.
    Routine,
    /// Worth a glance. Spoken the next time the user talks to MAVIS.
    Notable,
    /// Affects who can do what on this machine. Notified immediately.
    Critical,
}

/// Position of a severity in its order.
pub open spec fn rank(s: Severity) -> nat {
    match s {
        Severity::Routine => 0,
        Severity::Notable => 1,
        Severity::Critical => 2,
    }
}

pub open spec fn severity_name(s: Severity) -> Seq<char> {
    match s {
        Severity::Routine => "routine"@,
        Severity::Notable => "notable"@,
        Severity::Critical => "critical"@,
    }
}

impl Severity {
    pub fn rank_of(self) -> (r: u8)
        ensures
            r as nat == rank(self),
    {
        match self {
            Severity::Routine => 0,
            Severity::Notable => 1,
            Severity::Critical => 2,
        }
    }

    pub fn as_str(self) -> (r: &'static str)
        ensures
            r@ == severity_name(self),
    {
        match self {
            Severity::Routine => "routine",
            Severity::Notable => "notable",
            Severity::Critical => "critical",
        }
    }

    /// Inverse of `as_str`; `None` for any other text.
    pub fn from_str(s: &str) -> (r: Option<Severity>)
        ensures
            r matches Some(v) ==> severity_name(v) == s@,
            r is None ==> forall|v: Severity| severity_name(v) != s@,
    {
        let v = chars_of(s);
        let routine = chars_of("routine");
        let notable = chars_of("notable");
        let critical = chars_of("critical");
        proof {
            reveal_strlit("routine");
            reveal_strlit("notable");
            reveal_strlit("critical");
        }
        if same(&v, &routine) {
            Some(Severity::Routine)
        } else if same(&v, &notable) {
            Some(Severity::Notable)
        } else if same(&v, &critical) {
            Some(Severity::Critical)
        } else {
            None
        }
    }
}

/// Severity names are distinct, so parsing a name gives back its severity.
pub proof fn lemma_severity_round_trip(s: Severity)
    ensures
        forall|v: Severity| severity_name(v) == severity_name(s) ==> v == s,
{
    reveal_strlit("routine");
    reveal_strlit("notable");
    reveal_strlit("critical");
    assert forall|v: Severity| severity_name(v) == severity_name(s) implies v == s by {
        if v != s {
            assert(severity_name(v).len() != severity_name(s).len() || severity_name(v)[0]
                != severity_name(s)[0]);
        }
    }
}


/// A single observed change.
#[derive(Clone, Debug, PartialEq, Eq)]
pub enum ChangeKind {
    /// A package appeared that was not installed before. `requested`
    /// tells "I asked for this" from "this came along for the ride".
    PackageInstalled { name: String, version: String, requested: bool },
    /// A package that was installed is now gone.
    PackageRemoved { name: String, version: String },
    /// An already-installed package changed version.
    PackageUpgraded { name: String, from: String, to: String },
    /// An already-installed package went backwards in version.
    PackageDowngraded { name: String, from: String, to: String },
}

/// One change, with everything needed to report it later.
#[derive(Clone, Debug, PartialEq, Eq)]
pub struct Change {
    pub kind: ChangeKind,
    pub severity: Severity,
    /// Which collector saw it: "pacman", "dpkg", "rpm", ...
    pub source: String,
    /// When the change happened, in seconds since the Unix epoch.
    pub occurred_at: i64,
    /// One plain sentence, ready to be spoken or shown.
    pub detail: String,
}

/// The severity rules, in one place.
pub open spec fn classify_spec(k: ChangeKind) -> Severity {
    match k {
        ChangeKind::PackageInstalled { requested, .. } => if requested {
            Severity::Routine
        } else {
            Severity::Notable
        },
        ChangeKind::PackageRemoved { .. } => Severity::Notable,
        ChangeKind::PackageUpgraded { .. } => Severity::Routine,
        ChangeKind::PackageDowngraded { .. } => Severity::Notable,
    }
}

/// One plain sentence per change, written to be spoken aloud.
pub open spec fn describe_spec(k: ChangeKind) -> Seq<char> {
    match k {
        ChangeKind::PackageInstalled { name, version, requested } => if requested {
            name@ + " ("@ + version@ + ") was installed."@
        } else {
            name@ + " ("@ + version@
                + ") was installed as a dependency \u{2014} you didn't ask for it directly."@
        },
        ChangeKind::PackageRemoved { name, version } => name@ + " ("@ + version@
            + ") was removed."@,
        ChangeKind::PackageUpgraded { name, from, to } => name@ + " was updated from "@ + from@
            + " to "@ + to@ + "."@,
        ChangeKind::PackageDowngraded { name, from, to } => name@ + " went backwards from "@
            + from@ + " to "@ + to@ + " \u{2014} that's unusual."@,
    }
}

/// The package a change is about.
pub open spec fn package_of(k: ChangeKind) -> Seq<char> {
    match k {
        ChangeKind::PackageInstalled { name, .. } => name@,
        ChangeKind::PackageRemoved { name, .. } => name@,
        ChangeKind::PackageUpgraded { name, .. } => name@,
        ChangeKind::PackageDowngraded { name, .. } => name@,
    }
}

/// No text a change carries holds `c`.
pub open spec fn kind_free_of(k: ChangeKind, c: char) -> bool {
    match k {
        ChangeKind::PackageInstalled { name, version, .. } => free_of(name@, c) && free_of(version@, c),
        ChangeKind::PackageRemoved { name, version } => free_of(name@, c) && free_of(version@, c),
        ChangeKind::PackageUpgraded { name, from, to } => free_of(name@, c) && free_of(from@, c) && free_of(
            to@,
            c,
        ),
        ChangeKind::PackageDowngraded { name, from, to } => free_of(name@, c) && free_of(from@, c)
            && free_of(to@, c),
    }
}

proof fn lemma_lit_free_of(s: Seq<char>, c: char)
    requires
        forall|i: int| 0 <= i < s.len() ==> s[i] != '\n' && s[i] != '*' && s[i] != '#',
        is_mark(c),
    ensures
        free_of(s, c),
{
}

/// A description is one spoken sentence: it opens with the package's name
/// and ends with a full stop; an install nobody asked for says "didn't ask
/// for it"; and it holds a line break, `*` or `#` only where one of the
/// package's own texts does.
pub proof fn law_descriptions_are_sentences(k: ChangeKind, c: char)
    ensures
        crate::text::has_prefix(describe_spec(k), package_of(k)),
        describe_spec(k).len() > 0 && describe_spec(k).last() == '.',
        k matches ChangeKind::PackageInstalled { requested, .. } && !requested ==> crate::text::has_sub(
            describe_spec(k),
            "didn't ask for it"@,
        ),
        is_mark(c) && kind_free_of(k, c) ==> free_of(describe_spec(k), c),
{
    reveal_strlit(" (");
    reveal_strlit(") was installed.");
    reveal_strlit(") was installed as a dependency \u{2014} you didn't ask for it directly.");
    reveal_strlit(") was removed.");
    reveal_strlit(" was updated from ");
    reveal_strlit(" to ");
    reveal_strlit(".");
    reveal_strlit(" went backwards from ");
    reveal_strlit(" \u{2014} that's unusual.");
    reveal_strlit("didn't ask for it");
    let d = describe_spec(k);
    let n = package_of(k);
    assert(d.subrange(0, n.len() as int) =~= n);
    let free = is_mark(c) && kind_free_of(k, c);
    match k {
        ChangeKind::PackageInstalled { name, version, requested } => {
            if !requested {
                let tail = ") was installed as a dependency \u{2014} you didn't ask for it directly."@;
                let at: int = (name@.len() + 2 + version@.len() + 38) as int;
                assert(d =~= name@ + " ("@ + version@ + tail);
                assert(d.subrange(at, at + 17) =~= "didn't ask for it"@);
                assert(crate::text::occurs_at(d, "didn't ask for it"@, at));
            }
            if free {
                lemma_lit_free_of(" ("@, c);
                lemma_lit_free_of(") was installed."@, c);
                lemma_lit_free_of(") was installed as a dependency \u{2014} you didn't ask for it directly."@, c);
                lemma_free_of_concat(name@, " ("@, c);
                lemma_free_of_concat(name@ + " ("@, version@, c);
                lemma_free_of_concat(name@ + " ("@ + version@, ") was installed."@, c);
                lemma_free_of_concat(
                    name@ + " ("@ + version@,
                    ") was installed as a dependency \u{2014} you didn't ask for it directly."@,
                    c,
                );
            }
        },
        ChangeKind::PackageRemoved { name, version } => {
            if free {
                lemma_lit_free_of(" ("@, c);
                lemma_lit_free_of(") was removed."@, c);
                lemma_free_of_concat(name@, " ("@, c);
                lemma_free_of_concat(name@ + " ("@, version@, c);
                lemma_free_of_concat(name@ + " ("@ + version@, ") was removed."@, c);
            }
        },
        ChangeKind::PackageUpgraded { name, from, to } => {
            if free {
                lemma_lit_free_of(" was updated from "@, c);
                lemma_lit_free_of(" to "@, c);
                lemma_lit_free_of("."@, c);
                lemma_free_of_concat(name@, " was updated from "@, c);
                lemma_free_of_concat(name@ + " was updated from "@, from@, c);
                lemma_free_of_concat(name@ + " was updated from "@ + from@, " to "@, c);
                lemma_free_of_concat(name@ + " was updated from "@ + from@ + " to "@, to@, c);
                lemma_free_of_concat(name@ + " was updated from "@ + from@ + " to "@ + to@, "."@, c);
            }
        },
        ChangeKind::PackageDowngraded { name, from, to } => {
            if free {
                lemma_lit_free_of(" went backwards from "@, c);
                lemma_lit_free_of(" to "@, c);
                lemma_lit_free_of(" \u{2014} that's unusual."@, c);
                lemma_free_of_concat(name@, " went backwards from "@, c);
                lemma_free_of_concat(name@ + " went backwards from "@, from@, c);
                lemma_free_of_concat(name@ + " went backwards from "@ + from@, " to "@, c);
                lemma_free_of_concat(name@ + " went backwards from "@ + from@ + " to "@, to@, c);
                lemma_free_of_concat(
                    name@ + " went backwards from "@ + from@ + " to "@ + to@,
                    " \u{2014} that's unusual."@,
                    c,
                );
            }
        },
    }
}

/// The identity of a change: collector, second, verb, package and version(s).
pub open spec fn fingerprint_spec(c: Change) -> Seq<char> {
    let (verb, name, detail) = match c.kind {
        ChangeKind::PackageInstalled { name, version, .. } => ("installed"@, name@, version@),
        ChangeKind::PackageRemoved { name, version } => ("removed"@, name@, version@),
        ChangeKind::PackageUpgraded { name, from, to } => ("upgraded"@, name@, from@ + ">"@
            + to@),
        ChangeKind::PackageDowngraded { name, from, to } => ("downgraded"@, name@, from@ + ">"@
            + to@),
    };
    c.source@ + ":"@ + signed_decimal(c.occurred_at as int) + ":"@ + verb + ":"@ + name + ":"@
        + detail
}

pub fn classify(kind: &ChangeKind) -> (s: Severity)
    ensures
        s == classify_spec(*kind),
{
    match kind {
        ChangeKind::PackageInstalled { requested, .. } => if *requested {
            Severity::Routine
        } else {
            Severity::Notable
        },
        ChangeKind::PackageRemoved { .. } => Severity::Notable,
        ChangeKind::PackageUpgraded { .. } => Severity::Routine,
        ChangeKind::PackageDowngraded { .. } => Severity::Notable,
    }
}

pub fn describe(kind: &ChangeKind) -> (d: String)
    ensures
        d@ == describe_spec(*kind),
{
    let mut v: Vec<char> = Vec::new();
    match kind {
        ChangeKind::PackageInstalled { name, version, requested } => {
            push_str(&mut v, name.as_str());
            push_str(&mut v, " (");
            push_str(&mut v, version.as_str());
            if *requested {
                push_str(&mut v, ") was installed.");
            } else {
                push_str(
                    &mut v,
                    ") was installed as a dependency \u{2014} you didn't ask for it directly.",
                );
            }
        },
        ChangeKind::PackageRemoved { name, version } => {
            push_str(&mut v, name.as_str());
            push_str(&mut v, " (");
            push_str(&mut v, version.as_str());
            push_str(&mut v, ") was removed.");
        },
        ChangeKind::PackageUpgraded { name, from, to } => {
            push_str(&mut v, name.as_str());
            push_str(&mut v, " was updated from ");
            push_str(&mut v, from.as_str());
            push_str(&mut v, " to ");
            push_str(&mut v, to.as_str());
            push_str(&mut v, ".");
        },
        ChangeKind::PackageDowngraded { name, from, to } => {
            push_str(&mut v, name.as_str());
            push_str(&mut v, " went backwards from ");
            push_str(&mut v, from.as_str());
            push_str(&mut v, " to ");
            push_str(&mut v, to.as_str());
            push_str(&mut v, " \u{2014} that's unusual.");
        },
    }
    string_of(&v)
}

impl Change {
    pub fn new(kind: ChangeKind, source: &str, occurred_at: i64) -> (c: Change)
        ensures
            c.kind == kind,
            c.severity == classify_spec(kind),
            c.detail@ == describe_spec(kind),
            c.source@ == source@,
            c.occurred_at == occurred_at,
    {
        let severity = classify(&kind);
        let detail = describe(&kind);
        Change { kind, severity, source: string_of(&chars_of(source)), occurred_at, detail }
    }

    /// Stable identity, so re-reading a log does not announce a change twice.
    /// Includes the time: the same package installed again later is new.
    pub fn fingerprint(&self) -> (f: String)
        ensures
            f@ == fingerprint_spec(*self),
    {
        let mut v: Vec<char> = Vec::new();
        push_str(&mut v, self.source.as_str());
        push_str(&mut v, ":");
        push_signed_decimal(&mut v, self.occurred_at);
        push_str(&mut v, ":");
        match &self.kind {
            ChangeKind::PackageInstalled { name, version, .. } => {
                push_str(&mut v, "installed");
                push_str(&mut v, ":");
                push_str(&mut v, name.as_str());
                push_str(&mut v, ":");
                push_str(&mut v, version.as_str());
            },
            ChangeKind::PackageRemoved { name, version } => {
                push_str(&mut v, "removed");
                push_str(&mut v, ":");
                push_str(&mut v, name.as_str());
                push_str(&mut v, ":");
                push_str(&mut v, version.as_str());
            },
            ChangeKind::PackageUpgraded { name, from, to } => {
                push_str(&mut v, "upgraded");
                push_str(&mut v, ":");
                push_str(&mut v, name.as_str());
                push_str(&mut v, ":");
                push_str(&mut v, from.as_str());
                push_str(&mut v, ">");
                push_str(&mut v, to.as_str());
            },
            ChangeKind::PackageDowngraded { name, from, to } => {
                push_str(&mut v, "downgraded");
                push_str(&mut v, ":");
                push_str(&mut v, name.as_str());
                push_str(&mut v, ":");
                push_str(&mut v, from.as_str());
                push_str(&mut v, ">");
                push_str(&mut v, to.as_str());
            },
        }
        proof {
            let c = *self;
            assert(v@ =~= fingerprint_spec(c));
        }
        string_of(&v)
    }
}

/// Whether `s` is the highest severity in `cs`.
pub open spec fn is_peak(cs: Seq<Change>, s: Severity) -> bool {
    &&& exists|i: int| 0 <= i < cs.len() && cs[i].severity == s
    &&& forall|i: int| 0 <= i < cs.len() ==> rank(cs[i].severity) <= rank(s)
}

/// The worst severity in a batch, or `None` for an empty batch.
pub fn worst(changes: &[Change]) -> (r: Option<Severity>)
    ensures
        r is None <==> changes@.len() == 0,
        r matches Some(s) ==> is_peak(changes@, s),
{
    if changes.len() == 0 {
        return None;
    }
    let mut best = changes[0].severity;
    let mut at: usize = 0;
    let mut i: usize = 1;
    while i < changes.len()
        invariant
            1 <= i <= changes.len(),
            at < i,
            changes@[at as int].severity == best,
            forall|j: int| 0 <= j < i ==> rank(changes@[j].severity) <= rank(best),
        decreases changes.len() - i,
    {
        if changes[i].severity.rank_of() > best.rank_of() {
            best = changes[i].severity;
            at = i;
        }
        i = i + 1;
    }
    Some(best)
}

} // verus!
