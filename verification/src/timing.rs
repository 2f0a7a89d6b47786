//! The times of labelled parts of a pass, added up label by label.
use crate::model::names::chars_of;
use crate::tensor_file::same_text;
use crate::text::text;
use vstd::prelude::*;

verus! {

/// Whether `a` stands before `b` in a dictionary.
pub open spec fn before(a: Seq<char>, b: Seq<char>) -> bool
    decreases a.len(),
{
    if b.len() == 0 {
        false
    } else if a.len() == 0 {
        true
    } else if a[0] != b[0] {
        (a[0] as int) < b[0] as int
    } else {
        before(a.skip(1), b.skip(1))
    }
}

proof fn lemma_before_is_strict(a: Seq<char>)
    ensures
        !before(a, a),
    decreases a.len(),
{
    if a.len() > 0 {
        lemma_before_is_strict(a.skip(1));
    }
}

proof fn lemma_before_is_transitive(a: Seq<char>, b: Seq<char>, c: Seq<char>)
    requires
        before(a, b),
        before(b, c),
    ensures
        before(a, c),
    decreases a.len(),
{
    if a.len() > 0 && a[0] == b[0] && b[0] == c[0] {
        lemma_before_is_transitive(a.skip(1), b.skip(1), c.skip(1));
    }
}

proof fn lemma_before_is_total(a: Seq<char>, b: Seq<char>)
    ensures
        a == b || before(a, b) || before(b, a),
    decreases a.len(),
{
    if a.len() == 0 && b.len() == 0 {
        assert(a =~= b);
    } else if a.len() > 0 && b.len() > 0 && a[0] == b[0] {
        lemma_before_is_total(a.skip(1), b.skip(1));
        if a.skip(1) == b.skip(1) {
            assert(a =~= seq![a[0]] + a.skip(1));
            assert(b =~= seq![b[0]] + b.skip(1));
        }
    }
}

/// Whether `a` stands before `b` in a dictionary.
fn is_before(a: &str, b: &str) -> (r: bool)
    ensures
        r == before(a@, b@),
{
    let a: Vec<char> = chars_of(a);
    let b: Vec<char> = chars_of(b);
    assert(a@.skip(0) =~= a@ && b@.skip(0) =~= b@);
    let mut i: usize = 0;
    while i < a.len() && i < b.len() && a[i] == b[i]
        invariant
            i <= a@.len(),
            i <= b@.len(),
            before(a@, b@) == before(a@.skip(i as int), b@.skip(i as int)),
        decreases a@.len() - i,
    {
        proof {
            assert(a@.skip(i as int).skip(1) =~= a@.skip(i + 1));
            assert(b@.skip(i as int).skip(1) =~= b@.skip(i + 1));
        }
        i += 1;
    }
    if i >= b.len() {
        false
    } else if i >= a.len() {
        true
    } else {
        a[i] < b[i]
    }
}

/// What one label has taken so far.
#[derive(Debug)]
pub struct PartTime {
    pub label: &'static str,
    pub nanos: u128,
}

/// Adds up the time of labelled parts.
#[derive(Debug)]
pub struct PartTimes {
    label: &'static str,
    enabled: bool,
    parts: Vec<PartTime>,
}

/// Whether the labels stand in dictionary order, each once.
pub open spec fn in_order(parts: Seq<PartTime>) -> bool {
    forall|i: int, j: int|
        0 <= i < j < parts.len() ==> before(
            (#[trigger] parts[i]).label@,
            (#[trigger] parts[j]).label@,
        )
}

/// Whether the label has an entry with this time.
pub open spec fn has(parts: Seq<PartTime>, label: Seq<char>, nanos: u128) -> bool {
    exists|i: int|
        0 <= i < parts.len() && (#[trigger] parts[i]).label@ == label && parts[i].nanos == nanos
}

/// Whether the label has an entry.
pub open spec fn has_label(parts: Seq<PartTime>, label: Seq<char>) -> bool {
    exists|i: int| 0 <= i < parts.len() && (#[trigger] parts[i]).label@ == label
}

/// What a label has taken, nothing for one without an entry.
pub open spec fn taken(parts: Seq<PartTime>, label: Seq<char>) -> nat {
    if has_label(parts, label) {
        (choose|n: u128| has(parts, label, n)) as nat
    } else {
        0
    }
}

proof fn lemma_taken(parts: Seq<PartTime>, i: int)
    requires
        in_order(parts),
        0 <= i < parts.len(),
    ensures
        taken(parts, parts[i].label@) == parts[i].nanos,
{
    let label = parts[i].label@;
    assert(has(parts, label, parts[i].nanos));
    let n = choose|n: u128| has(parts, label, n);
    let j = choose|j: int|
        0 <= j < parts.len() && (#[trigger] parts[j]).label@ == label && parts[j].nanos == n;
    lemma_before_is_strict(label);
    assert(i == j);
}

impl PartTimes {
    #[verifier::type_invariant]
    spec fn ordered(self) -> bool {
        in_order(self.parts@)
    }

    pub closed spec fn parts(&self) -> Seq<PartTime> {
        self.parts@
    }

    pub closed spec fn name(&self) -> Seq<char> {
        self.label@
    }

    pub closed spec fn is_on(&self) -> bool {
        self.enabled
    }

    /// No parts yet. Only the value `0` of the switch turns measuring off.
    pub fn new(label: &'static str, switch: Option<&str>) -> (t: PartTimes)
        ensures
            t.name() == label@,
            t.is_on() <==> (switch matches Some(v) ==> v@ != "0"@),
            t.parts() == Seq::<PartTime>::empty(),
    {
        let enabled = match switch {
            Some(v) => !same_text(v, "0"),
            None => true,
        };
        PartTimes { label, enabled, parts: Vec::new() }
    }

    pub fn enabled(&self) -> (on: bool)
        ensures
            on == self.is_on(),
    {
        self.enabled
    }

    /// What the labels have taken, in dictionary order.
    pub fn totals(&self) -> (v: &Vec<PartTime>)
        ensures
            v@ == self.parts(),
            in_order(v@),
    {
        proof {
            use_type_invariant(self);
        }
        &self.parts
    }

    /// Adds to the time of a label.
    pub fn add(&mut self, label: &'static str, nanos: u128)
        requires
            taken(old(self).parts(), label@) + nanos <= u128::MAX,
        ensures
            final(self).name() == old(self).name(),
            final(self).is_on() == old(self).is_on(),
            has_label(final(self).parts(), label@),
            taken(final(self).parts(), label@) == taken(old(self).parts(), label@) + nanos,
            forall|other: Seq<char>|
                other != label@ ==> {
                    &&& has_label(final(self).parts(), other) == #[trigger] has_label(
                        old(self).parts(),
                        other,
                    )
                    &&& taken(final(self).parts(), other) == taken(old(self).parts(), other)
                },
    {
        proof {
            use_type_invariant(&*self);
        }
        let ghost parts = self.parts@;
        let mut list: Vec<PartTime> = Vec::new();
        std::mem::swap(&mut list, &mut self.parts);
        let n: usize = list.len();
        let mut i: usize = 0;
        while i < n && is_before(list[i].label, label)
            invariant
                i <= n == parts.len(),
                list@ == parts,
                forall|j: int| 0 <= j < i ==> before((#[trigger] parts[j]).label@, label@),
            decreases n - i,
        {
            i += 1;
        }
        if i < n && same_text(list[i].label, label) {
            proof {
                lemma_taken(parts, i as int);
            }
            let sum: u128 = list[i].nanos + nanos;
            list.set(i, PartTime { label, nanos: sum });
            proof {
                lemma_changed(parts, list@, i as int, label@);
            }
        } else {
            list.insert(i, PartTime { label, nanos });
            proof {
                lemma_added(parts, list@, i as int, label@);
            }
        }
        self.parts = list;
    }

    /// The line above the times: none while measuring is off or nothing was measured.
    pub fn heading(&self, context: &str) -> (h: Option<String>)
        ensures
            h is Some <==> self.is_on() && self.parts().len() > 0,
            h matches Some(s) ==> s@ == "[hip-prof] "@ + self.name() + " "@ + context@,
    {
        if !self.enabled || self.parts.len() == 0 {
            return None;
        }
        Some(text("[hip-prof] ").lit(self.label).lit(" ").lit(context).done())
    }
}

/// A new time for one label leaves the others as they are.
proof fn lemma_changed(parts: Seq<PartTime>, now: Seq<PartTime>, i: int, label: Seq<char>)
    requires
        in_order(parts),
        0 <= i < parts.len() == now.len(),
        parts[i].label@ == label,
        now[i].label@ == label,
        forall|j: int| 0 <= j < parts.len() && j != i ==> now[j] == parts[j],
    ensures
        in_order(now),
        taken(now, label) == now[i].nanos,
        has_label(now, label),
        forall|other: Seq<char>|
            other != label ==> {
                &&& has_label(now, other) == #[trigger] has_label(parts, other)
                &&& taken(now, other) == taken(parts, other)
            },
{
    lemma_taken(now, i);
    assert forall|other: Seq<char>| other != label implies {
        &&& has_label(now, other) == #[trigger] has_label(parts, other)
        &&& taken(now, other) == taken(parts, other)
    } by {
        if has_label(parts, other) {
            let j = choose|j: int| 0 <= j < parts.len() && (#[trigger] parts[j]).label@ == other;
            assert(now[j].label@ == other);
            lemma_taken(parts, j);
            lemma_taken(now, j);
        }
        if has_label(now, other) {
            let j = choose|j: int| 0 <= j < now.len() && (#[trigger] now[j]).label@ == other;
            assert(parts[j].label@ == other);
        }
    }
}

/// A new label, put where it belongs, leaves the others as they are.
proof fn lemma_added(parts: Seq<PartTime>, now: Seq<PartTime>, i: int, label: Seq<char>)
    requires
        in_order(parts),
        0 <= i <= parts.len(),
        now == parts.insert(i, now[i]),
        now[i].label@ == label,
        forall|j: int| 0 <= j < i ==> before((#[trigger] parts[j]).label@, label),
        i < parts.len() ==> !before(parts[i].label@, label) && parts[i].label@ != label,
    ensures
        in_order(now),
        !has_label(parts, label),
        taken(now, label) == now[i].nanos,
        has_label(now, label),
        forall|other: Seq<char>|
            other != label ==> {
                &&& has_label(now, other) == #[trigger] has_label(parts, other)
                &&& taken(now, other) == taken(parts, other)
            },
{
    assert forall|j: int| i <= j < parts.len() implies before(
        label,
        (#[trigger] parts[j]).label@,
    ) by {
        lemma_before_is_total(parts[i].label@, label);
        if j > i {
            lemma_before_is_transitive(label, parts[i].label@, parts[j].label@);
        }
    }
    lemma_before_is_strict(label);
    assert forall|j: int| 0 <= j < now.len() implies #[trigger] now[j] == (if j < i {
        parts[j]
    } else if j == i {
        now[i]
    } else {
        parts[j - 1]
    }) by {}
    assert(in_order(now));
    lemma_taken(now, i);
    assert forall|other: Seq<char>| other != label implies {
        &&& has_label(now, other) == #[trigger] has_label(parts, other)
        &&& taken(now, other) == taken(parts, other)
    } by {
        if has_label(parts, other) {
            let j = choose|j: int| 0 <= j < parts.len() && (#[trigger] parts[j]).label@ == other;
            let k = if j < i { j } else { j + 1 };
            assert(now[k] == parts[j]);
            lemma_taken(parts, j);
            lemma_taken(now, k);
        }
        if has_label(now, other) {
            let j = choose|j: int| 0 <= j < now.len() && (#[trigger] now[j]).label@ == other;
            assert(j != i);
            let k = if j < i { j } else { j - 1 };
            assert(parts[k] == now[j]);
        }
    }
}

} // verus!
