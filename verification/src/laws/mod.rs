//! What the library promises as a whole.

use crate::dedupe;
use crate::detection;
use crate::detection::inspection;
use crate::types::{AttackClass, FindingView};
use vstd::prelude::*;

pub mod attacks;
pub mod decisions;
pub mod declared;
pub mod delivery;
pub mod exported;
pub mod flow;
pub mod grades;
pub mod learning;
pub mod known;
pub mod limits;
pub mod measured;
pub mod names_read;
pub mod policies;
pub mod reading;
pub mod releases;
pub mod recommended;
pub mod remembered;
pub mod requests;
pub mod responses;
pub mod settings;
pub mod sources;
pub mod stored;
pub mod texts;
pub mod verdicts;

verus! {

/// Whether a finding is of a class and about a place.
pub open spec fn is_at(f: FindingView, class: AttackClass, location: Seq<char>) -> bool {
    f.attack_class == class && f.evidence.len() == 1 && f.evidence[0].location == location
}

/// Whether a finding of a class about a place is among some findings.
pub open spec fn names(
    found: Seq<FindingView>,
    class: AttackClass,
    location: Seq<char>,
) -> bool {
    exists|i: int| 0 <= i < found.len() && is_at(#[trigger] found[i], class, location)
}

/// Whether a finding is of a rule and about a place.
pub open spec fn is_by(f: FindingView, rule_id: Seq<char>, location: Seq<char>) -> bool {
    f.rule_id == rule_id && f.evidence.len() == 1 && f.evidence[0].location == location
}

/// Whether a finding of a rule about a place is among some findings.
pub open spec fn cites(found: Seq<FindingView>, rule_id: Seq<char>, location: Seq<char>) -> bool {
    exists|i: int| 0 <= i < found.len() && is_by(#[trigger] found[i], rule_id, location)
}

/// Whether a finding of a rule is among some findings.
pub open spec fn shows(found: Seq<FindingView>, rule_id: Seq<char>) -> bool {
    exists|i: int| 0 <= i < found.len() && (#[trigger] found[i]).rule_id == rule_id
}

pub broadcast proof fn lemma_shows_push(s: Seq<FindingView>, f: FindingView, rule_id: Seq<char>)
    ensures
        #[trigger] shows(s.push(f), rule_id) == (shows(s, rule_id) || f.rule_id == rule_id),
{
    let t = s.push(f);
    if shows(s, rule_id) {
        let i = choose|i: int| 0 <= i < s.len() && (#[trigger] s[i]).rule_id == rule_id;
        assert(t[i].rule_id == rule_id);
    }
    assert(t[s.len() as int] == f);
    if shows(t, rule_id) {
        let i = choose|i: int| 0 <= i < t.len() && (#[trigger] t[i]).rule_id == rule_id;
        if i < s.len() {
            assert(s[i].rule_id == rule_id);
        }
    }
}

pub broadcast proof fn lemma_shows_push_if(
    s: Seq<FindingView>,
    c: bool,
    f: FindingView,
    rule_id: Seq<char>,
)
    ensures
        #[trigger] shows(detection::push_if(s, c, f), rule_id) == (shows(s, rule_id) || (c
            && f.rule_id == rule_id)),
{
    lemma_shows_push(s, f, rule_id);
}

pub broadcast proof fn lemma_shows_add(
    a: Seq<FindingView>,
    b: Seq<FindingView>,
    rule_id: Seq<char>,
)
    ensures
        #[trigger] shows(a + b, rule_id) == (shows(a, rule_id) || shows(b, rule_id)),
{
    let t = a + b;
    if shows(a, rule_id) {
        let i = choose|i: int| 0 <= i < a.len() && (#[trigger] a[i]).rule_id == rule_id;
        assert(t[i].rule_id == rule_id);
    }
    if shows(b, rule_id) {
        let i = choose|i: int| 0 <= i < b.len() && (#[trigger] b[i]).rule_id == rule_id;
        assert(t[a.len() + i].rule_id == rule_id);
    }
    if shows(t, rule_id) {
        let i = choose|i: int| 0 <= i < t.len() && (#[trigger] t[i]).rule_id == rule_id;
        if i < a.len() {
            assert(a[i].rule_id == rule_id);
        } else {
            assert(b[i - a.len()].rule_id == rule_id);
        }
    }
}

/// Whether every finding has one piece of evidence and a rule whose name tells its class.
pub open spec fn sound(found: Seq<FindingView>) -> bool {
    forall|i: int| 0 <= i < found.len() ==> is_sound(#[trigger] found[i])
}

/// The class of the findings that a rule makes, by the name of the rule.
pub open spec fn class_of_rule(rule_id: Seq<char>) -> AttackClass {
    let c = rule_id[0];
    let d = rule_id[3];
    if c == 'U' {
        if d == 'T' {
            AttackClass::PathTraversal
        } else if d == 'X' {
            AttackClass::Xss
        } else if d == 'C' {
            AttackClass::CommandInjection
        } else if d == 'E' {
            AttackClass::PayloadEvasion
        } else if d == 'P' {
            AttackClass::RequestSmuggling
        } else if d == 'S' {
            if rule_id[4] == 'Q' {
                AttackClass::SqlInjection
            } else {
                AttackClass::Ssrf
            }
        } else if rule_id[7] == 'R' {
            AttackClass::ResourceAbuse
        } else if rule_id[7] == 'I' {
            AttackClass::ApiInventory
        } else {
            AttackClass::SchemaViolation
        }
    } else if c == 's' {
        if rule_id[1] == 'c' {
            AttackClass::SchemaViolation
        } else {
            AttackClass::RequestSmuggling
        }
    } else if c == 'a' {
        AttackClass::BrokenAuthentication
    } else if c == 'm' {
        AttackClass::MethodAbuse
    } else if c == 'h' {
        AttackClass::HeaderInjection
    } else if c == 'o' {
        AttackClass::ObjectEnumeration
    } else if c == 't' {
        AttackClass::TenantBoundaryViolation
    } else {
        AttackClass::JwtAbuse
    }
}

pub open spec fn is_sound(f: FindingView) -> bool {
    &&& f.evidence.len() == 1
    &&& f.rule_id.len() >= 8
    &&& !f.rule_id.contains(':')
    &&& f.attack_class == class_of_rule(f.rule_id)
}

pub broadcast proof fn lemma_names_push(
    s: Seq<FindingView>,
    f: FindingView,
    class: AttackClass,
    location: Seq<char>,
)
    ensures
        #[trigger] names(s.push(f), class, location) == (names(s, class, location) || is_at(
            f,
            class,
            location,
        )),
{
    let t = s.push(f);
    if names(s, class, location) {
        let i = choose|i: int| 0 <= i < s.len() && is_at(#[trigger] s[i], class, location);
        assert(is_at(t[i], class, location));
    }
    if is_at(f, class, location) {
        assert(is_at(t[s.len() as int], class, location));
    }
    if names(t, class, location) {
        let i = choose|i: int| 0 <= i < t.len() && is_at(#[trigger] t[i], class, location);
        if i < s.len() {
            assert(is_at(s[i], class, location));
        }
    }
}

pub broadcast proof fn lemma_names_push_if(
    s: Seq<FindingView>,
    c: bool,
    f: FindingView,
    class: AttackClass,
    location: Seq<char>,
)
    ensures
        #[trigger] names(detection::push_if(s, c, f), class, location) == (names(
            s,
            class,
            location,
        ) || (c && is_at(f, class, location))),
{
    lemma_names_push(s, f, class, location);
}

pub broadcast proof fn lemma_names_add(
    a: Seq<FindingView>,
    b: Seq<FindingView>,
    class: AttackClass,
    location: Seq<char>,
)
    ensures
        #[trigger] names(a + b, class, location) == (names(a, class, location) || names(
            b,
            class,
            location,
        )),
{
    let t = a + b;
    if names(a, class, location) {
        let i = choose|i: int| 0 <= i < a.len() && is_at(#[trigger] a[i], class, location);
        assert(is_at(t[i], class, location));
    }
    if names(b, class, location) {
        let i = choose|i: int| 0 <= i < b.len() && is_at(#[trigger] b[i], class, location);
        assert(is_at(t[a.len() + i], class, location));
    }
    if names(t, class, location) {
        let i = choose|i: int| 0 <= i < t.len() && is_at(#[trigger] t[i], class, location);
        if i < a.len() {
            assert(is_at(a[i], class, location));
        } else {
            assert(is_at(b[i - a.len()], class, location));
        }
    }
}

pub broadcast proof fn lemma_cites_push(
    s: Seq<FindingView>,
    f: FindingView,
    rule_id: Seq<char>,
    location: Seq<char>,
)
    ensures
        #[trigger] cites(s.push(f), rule_id, location) == (cites(s, rule_id, location) || is_by(
            f,
            rule_id,
            location,
        )),
{
    let t = s.push(f);
    if cites(s, rule_id, location) {
        let i = choose|i: int| 0 <= i < s.len() && is_by(#[trigger] s[i], rule_id, location);
        assert(is_by(t[i], rule_id, location));
    }
    if is_by(f, rule_id, location) {
        assert(is_by(t[s.len() as int], rule_id, location));
    }
    if cites(t, rule_id, location) {
        let i = choose|i: int| 0 <= i < t.len() && is_by(#[trigger] t[i], rule_id, location);
        if i < s.len() {
            assert(is_by(s[i], rule_id, location));
        }
    }
}

pub broadcast proof fn lemma_cites_push_if(
    s: Seq<FindingView>,
    c: bool,
    f: FindingView,
    rule_id: Seq<char>,
    location: Seq<char>,
)
    ensures
        #[trigger] cites(detection::push_if(s, c, f), rule_id, location) == (cites(
            s,
            rule_id,
            location,
        ) || (c && is_by(f, rule_id, location))),
{
    lemma_cites_push(s, f, rule_id, location);
}

pub broadcast proof fn lemma_cites_add(
    a: Seq<FindingView>,
    b: Seq<FindingView>,
    rule_id: Seq<char>,
    location: Seq<char>,
)
    ensures
        #[trigger] cites(a + b, rule_id, location) == (cites(a, rule_id, location) || cites(
            b,
            rule_id,
            location,
        )),
{
    let t = a + b;
    if cites(a, rule_id, location) {
        let i = choose|i: int| 0 <= i < a.len() && is_by(#[trigger] a[i], rule_id, location);
        assert(is_by(t[i], rule_id, location));
    }
    if cites(b, rule_id, location) {
        let i = choose|i: int| 0 <= i < b.len() && is_by(#[trigger] b[i], rule_id, location);
        assert(is_by(t[a.len() + i], rule_id, location));
    }
    if cites(t, rule_id, location) {
        let i = choose|i: int| 0 <= i < t.len() && is_by(#[trigger] t[i], rule_id, location);
        if i < a.len() {
            assert(is_by(a[i], rule_id, location));
        } else {
            assert(is_by(b[i - a.len()], rule_id, location));
        }
    }
}

pub broadcast proof fn lemma_sound_push(s: Seq<FindingView>, f: FindingView)
    ensures
        #[trigger] sound(s.push(f)) == (sound(s) && is_sound(f)),
{
    let t = s.push(f);
    assert(t[s.len() as int] == f);
    if sound(t) {
        assert forall|i: int| 0 <= i < s.len() implies is_sound(#[trigger] s[i]) by {
            assert(t[i] == s[i]);
        }
    }
}

pub broadcast proof fn lemma_sound_push_if(s: Seq<FindingView>, c: bool, f: FindingView)
    ensures
        #[trigger] sound(detection::push_if(s, c, f)) == (sound(s) && (c ==> is_sound(f))),
{
    lemma_sound_push(s, f);
}

pub broadcast proof fn lemma_sound_add(a: Seq<FindingView>, b: Seq<FindingView>)
    ensures
        #[trigger] sound(a + b) == (sound(a) && sound(b)),
{
    let t = a + b;
    if sound(t) {
        assert forall|i: int| 0 <= i < a.len() implies is_sound(#[trigger] a[i]) by {
            assert(t[i] == a[i]);
        }
        assert forall|i: int| 0 <= i < b.len() implies is_sound(#[trigger] b[i]) by {
            assert(t[a.len() + i] == b[i]);
        }
    }
}

pub broadcast group group_findings {
    lemma_names_push,
    lemma_names_push_if,
    lemma_names_add,
    lemma_cites_push,
    lemma_cites_push_if,
    lemma_cites_add,
    lemma_sound_push,
    lemma_sound_push_if,
    lemma_sound_add,
    lemma_shows_push,
    lemma_shows_push_if,
    lemma_shows_add,
}

/// Two findings with the same key are of the same rule and about the same place.
proof fn lemma_key_tells(f: FindingView, g: FindingView)
    requires
        is_sound(f),
        is_sound(g),
        inspection::finding_key(f) == inspection::finding_key(g),
    ensures
        f.rule_id == g.rule_id,
        f.evidence[0].location == g.evidence[0].location,
        f.attack_class == g.attack_class,
{
    reveal_strlit(":");
    let k = inspection::finding_key(f);
    let l = inspection::finding_key(g);
    let m = f.rule_id.len() as int;
    let n = g.rule_id.len() as int;
    assert(k[m] == ':');
    assert(l[n] == ':');
    if m < n {
        assert(l[m] == g.rule_id[m]);
    } else if n < m {
        assert(k[n] == f.rule_id[n]);
    }
    assert(k.take(m) =~= f.rule_id);
    assert(l.take(n) =~= g.rule_id);
    assert(k.skip(m + 1) =~= f.evidence[0].location);
    assert(l.skip(n + 1) =~= g.evidence[0].location);
}

/// What is left when repeated findings are dropped is among what was there.
proof fn lemma_first_is_among(s: Seq<FindingView>, i: int)
    requires
        0 <= i < dedupe::first_by_key(s, inspection::by_finding_key()).len(),
    ensures
        s.contains(dedupe::first_by_key(s, inspection::by_finding_key())[i]),
    decreases s.len(),
{
    let key = inspection::by_finding_key();
    let all = dedupe::first_by_key(s, key);
    let before = dedupe::first_by_key(s.drop_last(), key);
    if i < before.len() {
        lemma_first_is_among(s.drop_last(), i);
        let j = choose|j: int| 0 <= j < s.drop_last().len() && s.drop_last()[j] == before[i];
        assert(s[j] == all[i]);
    } else {
        assert(s[s.len() - 1] == all[i]);
    }
}

/// Whether a finding has the rule, the class and the place of another.
spec fn is_like(f: FindingView, g: FindingView) -> bool {
    f.rule_id == g.rule_id && f.attack_class == g.attack_class && f.evidence[0].location
        == g.evidence[0].location
}

/// Every finding that was there has one like it among those that are left.
proof fn lemma_one_is_left(found: Seq<FindingView>, i: int) -> (j: int)
    requires
        sound(found),
        0 <= i < found.len(),
    ensures
        ({
            let reported = dedupe::first_by_key(found, inspection::by_finding_key());
            0 <= j < reported.len() && is_like(reported[j], found[i]) && is_sound(reported[j])
        }),
{
    let key = inspection::by_finding_key();
    let reported = dedupe::first_by_key(found, key);
    dedupe::law_first_by_key(found, key);
    let k = key(found[i]);
    assert(dedupe::has_key(found, key, k));
    assert(dedupe::has_key(reported, key, k));
    let j = choose|j: int| 0 <= j < reported.len() && key(#[trigger] reported[j]) == k;
    lemma_first_is_among(found, j);
    let p = choose|p: int| 0 <= p < found.len() && found[p] == reported[j];
    assert(is_sound(found[p]));
    assert(is_sound(found[i]));
    lemma_key_tells(reported[j], found[i]);
    j
}

proof fn lemma_names_left(found: Seq<FindingView>, class: AttackClass, location: Seq<char>)
    requires
        sound(found),
    ensures
        names(dedupe::first_by_key(found, inspection::by_finding_key()), class, location) == names(
            found,
            class,
            location,
        ),
{
    let reported = dedupe::first_by_key(found, inspection::by_finding_key());
    if names(reported, class, location) {
        let i = choose|i: int|
            0 <= i < reported.len() && is_at(#[trigger] reported[i], class, location);
        lemma_first_is_among(found, i);
        let p = choose|p: int| 0 <= p < found.len() && found[p] == reported[i];
        assert(is_at(found[p], class, location));
    }
    if names(found, class, location) {
        let i = choose|i: int| 0 <= i < found.len() && is_at(#[trigger] found[i], class, location);
        let j = lemma_one_is_left(found, i);
        assert(is_at(reported[j], class, location));
    }
}

proof fn lemma_cites_left(found: Seq<FindingView>, rule_id: Seq<char>, location: Seq<char>)
    requires
        sound(found),
    ensures
        cites(dedupe::first_by_key(found, inspection::by_finding_key()), rule_id, location)
            == cites(found, rule_id, location),
{
    let reported = dedupe::first_by_key(found, inspection::by_finding_key());
    if cites(reported, rule_id, location) {
        let i = choose|i: int|
            0 <= i < reported.len() && is_by(#[trigger] reported[i], rule_id, location);
        lemma_first_is_among(found, i);
        let p = choose|p: int| 0 <= p < found.len() && found[p] == reported[i];
        assert(is_by(found[p], rule_id, location));
    }
    if cites(found, rule_id, location) {
        let i = choose|i: int|
            0 <= i < found.len() && is_by(#[trigger] found[i], rule_id, location);
        let j = lemma_one_is_left(found, i);
        assert(is_by(reported[j], rule_id, location));
    }
}

/// Dropping repeated findings drops no rule, no class and no place.
pub proof fn lemma_reported(found: Seq<FindingView>)
    requires
        sound(found),
    ensures
        ({
            let reported = dedupe::first_by_key(found, inspection::by_finding_key());
            &&& sound(reported)
            &&& forall|i: int| 0 <= i < reported.len() ==> found.contains(#[trigger] reported[i])
            &&& forall|class: AttackClass, location: Seq<char>| #[trigger]
                names(reported, class, location) == names(found, class, location)
            &&& forall|rule_id: Seq<char>, location: Seq<char>| #[trigger]
                cites(reported, rule_id, location) == cites(found, rule_id, location)
        }),
{
    let reported = dedupe::first_by_key(found, inspection::by_finding_key());
    assert forall|i: int| 0 <= i < reported.len() implies found.contains(#[trigger] reported[i])
        && is_sound(reported[i]) by {
        lemma_first_is_among(found, i);
        let p = choose|p: int| 0 <= p < found.len() && found[p] == reported[i];
        assert(is_sound(found[p]));
    }
    assert forall|class: AttackClass, location: Seq<char>| #[trigger]
        names(reported, class, location) == names(found, class, location) by {
        lemma_names_left(found, class, location);
    }
    assert forall|rule_id: Seq<char>, location: Seq<char>| #[trigger]
        cites(reported, rule_id, location) == cites(found, rule_id, location) by {
        lemma_cites_left(found, rule_id, location);
    }
}

} // verus!
