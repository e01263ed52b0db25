use vstd::prelude::*;

use crate::lane::{Lane, LaneDesignated, LaneDirection};
use crate::locale::Locale;
use crate::tags::{keys_distinct, string_pairs, DuplicateKeyError, TagSeq, Tags};

verus! {

/// Settings of the lanes-to-tags transform.
pub struct LanesToTagsConfig {
    /// Whether the produced tags are to be checked by converting them back to lanes.
    pub check_roundtrip: bool,
}

impl Default for LanesToTagsConfig {
    fn default() -> (r: Self)
        ensures
            r.check_roundtrip,
    {
        LanesToTagsConfig { check_roundtrip: true }
    }
}

/// A fatal error of a road transform.
#[derive(Debug)]
pub enum RoadError {
    /// A derivation wrote the same key twice.
    TagsDuplicateKey(DuplicateKeyError),
    /// Converting the produced tags back did not give the input lanes.
    RoundTrip,
}

/// Index of the first lane in `[lo, hi)` that is a travel lane designated `d`.
pub open spec fn first_in(l: Seq<Lane>, d: LaneDesignated, lo: int, hi: int) -> Option<int>
    decreases hi - lo,
{
    if lo >= hi {
        None
    } else if l[lo].spec_is_travel_of(d) {
        Some(lo)
    } else {
        first_in(l, d, lo + 1, hi)
    }
}

/// Index of the last lane in `[lo, hi)` that is a travel lane designated `d`.
pub open spec fn last_in(l: Seq<Lane>, d: LaneDesignated, lo: int, hi: int) -> Option<int>
    decreases hi - lo,
{
    if lo >= hi {
        None
    } else if l[hi - 1].spec_is_travel_of(d) {
        Some(hi - 1)
    } else {
        last_in(l, d, lo, hi - 1)
    }
}

/// Index of the first motor lane, or the number of lanes if there is none.
pub open spec fn first_motor(l: Seq<Lane>) -> int {
    match first_in(l, LaneDesignated::Motor, 0, l.len() as int) {
        Some(i) => i,
        None => l.len() as int,
    }
}

/// Index of the last motor lane, or -1 if there is none.
pub open spec fn last_motor(l: Seq<Lane>) -> int {
    match last_in(l, LaneDesignated::Motor, 0, l.len() as int) {
        Some(i) => i,
        None => -1,
    }
}

pub open spec fn count_motor_or_bus(l: Seq<Lane>) -> nat
    decreases l.len(),
{
    if l.len() == 0 {
        0
    } else {
        count_motor_or_bus(l.drop_last()) + if l.last().spec_is_travel_of(LaneDesignated::Motor)
            || l.last().spec_is_travel_of(LaneDesignated::Bus) {
            1nat
        } else {
            0nat
        }
    }
}

pub open spec fn digit_char(d: nat) -> char {
    if d == 0 {
        '0'
    } else if d == 1 {
        '1'
    } else if d == 2 {
        '2'
    } else if d == 3 {
        '3'
    } else if d == 4 {
        '4'
    } else if d == 5 {
        '5'
    } else if d == 6 {
        '6'
    } else if d == 7 {
        '7'
    } else if d == 8 {
        '8'
    } else {
        '9'
    }
}

/// The decimal digits of `n`.
pub open spec fn decimal(n: nat) -> Seq<char>
    decreases n,
{
    if n < 10 {
        seq![digit_char(n)]
    } else {
        decimal(n / 10) + seq![digit_char(n % 10)]
    }
}

pub open spec fn all_motor_forward(l: Seq<Lane>) -> bool {
    forall|i: int|
        0 <= i < l.len() && #[trigger] l[i].spec_is_motor() ==> l[i].spec_direction() == Some(
            LaneDirection::Forward,
        )
}

pub open spec fn side_word(left: bool, right: bool) -> Seq<char> {
    if left && right {
        "both"@
    } else if left {
        "left"@
    } else if right {
        "right"@
    } else {
        "no"@
    }
}

pub open spec fn is_foot(lane: Lane) -> bool {
    lane.spec_is_travel_of(LaneDesignated::Foot)
}

pub open spec fn parking_left(l: Seq<Lane>) -> bool {
    exists|i: int| 0 <= i < first_motor(l) && #[trigger] l[i] is Parking
}

pub open spec fn parking_right(l: Seq<Lane>) -> bool {
    last_motor(l) >= 0 && exists|i: int| last_motor(l) < i < l.len() && #[trigger] l[i] is Parking
}

pub open spec fn direction_at(l: Seq<Lane>, i: Option<int>) -> Option<LaneDirection> {
    match i {
        Some(j) => l[j].spec_direction(),
        None => None,
    }
}

/// Direction of the outermost bicycle lane left of every motor lane.
pub open spec fn left_cycle(l: Seq<Lane>) -> Option<LaneDirection> {
    direction_at(l, first_in(l, LaneDesignated::Bicycle, 0, first_motor(l)))
}

/// Direction of the outermost bicycle lane right of every motor lane.
pub open spec fn right_cycle(l: Seq<Lane>) -> Option<LaneDirection> {
    direction_at(l, last_in(l, LaneDesignated::Bicycle, last_motor(l) + 1, l.len() as int))
}

pub open spec fn oneway_word(d: LaneDirection) -> Seq<char> {
    match d {
        LaneDirection::Forward => "yes"@,
        LaneDirection::Backward => "-1"@,
        LaneDirection::Both => "no"@,
    }
}

pub open spec fn bus_item(lane: Lane) -> Seq<char> {
    if lane.spec_is_travel_of(LaneDesignated::Bus) {
        "designated"@
    } else {
        ""@
    }
}

/// One entry per lane, `designated` for a bus lane, joined by `|`.
pub open spec fn bus_lanes_text(l: Seq<Lane>) -> Seq<char>
    decreases l.len(),
{
    if l.len() == 0 {
        Seq::empty()
    } else if l.len() == 1 {
        bus_item(l[0])
    } else {
        bus_lanes_text(l.drop_last()) + "|"@ + bus_item(l.last())
    }
}

pub open spec fn bus_value(oneway: bool, lane: Lane) -> Seq<char> {
    if oneway && lane.spec_direction() == Some(LaneDirection::Backward) {
        "opposite_lane"@
    } else {
        "lane"@
    }
}

pub open spec fn opt_pair(c: bool, k: Seq<char>, v: Seq<char>) -> TagSeq {
    if c {
        seq![(k, v)]
    } else {
        seq![]
    }
}

pub open spec fn head_part(l: Seq<Lane>) -> TagSeq {
    seq![("highway"@, "road"@), ("lanes"@, decimal(count_motor_or_bus(l)))] + opt_pair(
        all_motor_forward(l),
        "oneway"@,
        "yes"@,
    )
}

pub open spec fn edge_part(l: Seq<Lane>) -> TagSeq {
    seq![
        ("shoulder"@, side_word(l[0] is Shoulder, l.last() is Shoulder)),
        ("sidewalk"@, side_word(is_foot(l[0]), is_foot(l.last()))),
    ]
}

pub open spec fn parking_part(l: Seq<Lane>) -> TagSeq {
    let (a, b) = (parking_left(l), parking_right(l));
    if a && b {
        seq![("parking:lane:both"@, "parallel"@)]
    } else if a {
        seq![("parking:lane:left"@, "parallel"@)]
    } else if b {
        seq![("parking:lane:right"@, "parallel"@)]
    } else {
        seq![]
    }
}

pub open spec fn cycle_dir_pair(k: Seq<char>, d: Option<LaneDirection>) -> TagSeq {
    match d {
        Some(x) => seq![(k, oneway_word(x))],
        None => seq![],
    }
}

pub open spec fn cycle_part(l: Seq<Lane>) -> TagSeq {
    let lc = left_cycle(l);
    let rc = right_cycle(l);
    let presence = if lc is Some && rc is Some {
        seq![("cycleway:both"@, "lane"@)]
    } else if lc is Some {
        seq![("cycleway:left"@, "lane"@)]
    } else if rc is Some {
        seq![("cycleway:right"@, "lane"@)]
    } else {
        seq![]
    };
    presence + opt_pair(
        all_motor_forward(l) && (lc == Some(LaneDirection::Backward) || rc == Some(
            LaneDirection::Backward,
        )),
        "oneway:bicycle"@,
        "no"@,
    ) + cycle_dir_pair("cycleway:left:oneway"@, lc) + cycle_dir_pair("cycleway:right:oneway"@, rc)
}

pub open spec fn bus_part(l: Seq<Lane>) -> TagSeq {
    let lb = first_in(l, LaneDesignated::Bus, 0, first_motor(l));
    let rb = last_in(l, LaneDesignated::Bus, last_motor(l) + 1, l.len() as int);
    let oneway = all_motor_forward(l);
    if lb is None && rb is None && first_in(l, LaneDesignated::Bus, 0, l.len() as int) is Some {
        seq![("bus:lanes"@, bus_lanes_text(l))]
    } else {
        match (lb, rb) {
            (Some(i), None) => seq![("busway:left"@, bus_value(oneway, l[i]))],
            (None, Some(j)) => seq![("busway:right"@, bus_value(oneway, l[j]))],
            (Some(_), Some(_)) => seq![("busway:both"@, "lane"@)],
            (None, None) => seq![],
        }
    }
}

pub open spec fn has_both_ways_motor(l: Seq<Lane>) -> bool {
    exists|i: int|
        0 <= i < l.len() && #[trigger] l[i] == Lane::Travel {
            direction: Some(LaneDirection::Both),
            designated: LaneDesignated::Motor,
        }
}

pub open spec fn both_ways_part(l: Seq<Lane>) -> TagSeq {
    if has_both_ways_motor(l) {
        seq![("lanes:both_ways"@, "1"@), ("turn:lanes:both_ways"@, "left"@)]
    } else {
        seq![]
    }
}

/// The tags that describe a lane sequence, in the order they are written.
pub open spec fn derived_tags(l: Seq<Lane>) -> TagSeq {
    head_part(l) + edge_part(l) + parking_part(l) + cycle_part(l) + bus_part(l) + both_ways_part(l)
}


/// What `lanes_to_tags` returns on `l`.
pub open spec fn reverse_result(l: Seq<Lane>, r: Result<Tags, RoadError>) -> bool {
    &&& r matches Ok(t)
    &&& t.wf()
    &&& t@ == derived_tags(l)
}

/// The reverse transform is deterministic: two results for the same lanes are equal tag sequences.
pub proof fn lemma_reverse_deterministic(
    l: Seq<Lane>,
    r1: Result<Tags, RoadError>,
    r2: Result<Tags, RoadError>,
)
    requires
        reverse_result(l, r1),
        reverse_result(l, r2),
    ensures
        r1 matches Ok(t1) && r2 matches Ok(t2) && t1@ == t2@,
{
}

/// The position of a key in the fixed order in which the derivation writes keys,
/// read from the key's length and, where two keys share a length, one character.
pub open spec fn key_rank(k: Seq<char>) -> int {
    let n = k.len();
    if n == 7 {
        0
    } else if n == 5 {
        1
    } else if n == 6 {
        2
    } else if n == 8 {
        if k[1] == 'h' {
            3
        } else {
            4
        }
    } else if n == 17 || n == 18 {
        5
    } else if n == 13 {
        6
    } else if n == 14 {
        if k[0] == 'c' {
            6
        } else {
            7
        }
    } else if n == 20 {
        if k[0] == 'c' {
            8
        } else {
            12
        }
    } else if n == 21 {
        9
    } else if n == 9 || n == 11 || n == 12 {
        10
    } else if n == 15 {
        11
    } else {
        13
    }
}

pub open spec fn ranks_within(s: TagSeq, lo: int, hi: int) -> bool {
    forall|i: int| 0 <= i < s.len() ==> lo <= #[trigger] key_rank(s[i].0) < hi
}

pub open spec fn ranks_increase(s: TagSeq) -> bool {
    forall|i: int, j: int| 0 <= i < j < s.len() ==> key_rank(#[trigger] s[i].0) < key_rank(#[trigger] s[j].0)
}

proof fn lemma_ranks_concat(a: TagSeq, b: TagSeq, lo: int, mid: int, hi: int)
    requires
        lo <= mid <= hi,
        ranks_increase(a),
        ranks_increase(b),
        ranks_within(a, lo, mid),
        ranks_within(b, mid, hi),
    ensures
        ranks_increase(a + b),
        ranks_within(a + b, lo, hi),
{
    let c = a + b;
    assert forall|i: int, j: int| 0 <= i < j < c.len() implies key_rank(#[trigger] c[i].0) < key_rank(
        #[trigger] c[j].0,
    ) by {
        if j < a.len() {
            assert(c[i] == a[i] && c[j] == a[j]);
        } else if i >= a.len() {
            assert(c[i] == b[i - a.len()] && c[j] == b[j - a.len()]);
        } else {
            assert(c[i] == a[i] && c[j] == b[j - a.len()]);
            assert(key_rank(a[i].0) < mid);
            assert(mid <= key_rank(b[j - a.len()].0));
        }
    }
    assert forall|i: int| 0 <= i < c.len() implies lo <= #[trigger] key_rank(c[i].0) < hi by {
        if i < a.len() {
            assert(c[i] == a[i]);
            assert(lo <= key_rank(a[i].0) < mid);
        } else {
            assert(c[i] == b[i - a.len()]);
            assert(mid <= key_rank(b[i - a.len()].0) < hi);
        }
    }
}

proof fn lemma_part_ranks(l: Seq<Lane>)
    requires
        l.len() > 0,
    ensures
        ranks_increase(head_part(l)) && ranks_within(head_part(l), 0, 3),
        ranks_increase(edge_part(l)) && ranks_within(edge_part(l), 3, 5),
        ranks_increase(parking_part(l)) && ranks_within(parking_part(l), 5, 6),
        ranks_increase(cycle_part(l)) && ranks_within(cycle_part(l), 6, 10),
        ranks_increase(bus_part(l)) && ranks_within(bus_part(l), 10, 11),
        ranks_increase(both_ways_part(l)) && ranks_within(both_ways_part(l), 11, 13),
{
    reveal_strlit("highway");
    reveal_strlit("lanes");
    reveal_strlit("oneway");
    reveal_strlit("shoulder");
    reveal_strlit("sidewalk");
    reveal_strlit("parking:lane:both");
    reveal_strlit("parking:lane:left");
    reveal_strlit("parking:lane:right");
    reveal_strlit("cycleway:both");
    reveal_strlit("cycleway:left");
    reveal_strlit("cycleway:right");
    reveal_strlit("oneway:bicycle");
    reveal_strlit("cycleway:left:oneway");
    reveal_strlit("cycleway:right:oneway");
    reveal_strlit("bus:lanes");
    reveal_strlit("busway:left");
    reveal_strlit("busway:right");
    reveal_strlit("busway:both");
    reveal_strlit("lanes:both_ways");
    reveal_strlit("turn:lanes:both_ways");
    let lc = left_cycle(l);
    let rc = right_cycle(l);
    let presence = if lc is Some && rc is Some {
        seq![("cycleway:both"@, "lane"@)]
    } else if lc is Some {
        seq![("cycleway:left"@, "lane"@)]
    } else if rc is Some {
        seq![("cycleway:right"@, "lane"@)]
    } else {
        seq![]
    };
    let ob = opt_pair(
        all_motor_forward(l) && (lc == Some(LaneDirection::Backward) || rc == Some(
            LaneDirection::Backward,
        )),
        "oneway:bicycle"@,
        "no"@,
    );
    let cl = cycle_dir_pair("cycleway:left:oneway"@, lc);
    let cr = cycle_dir_pair("cycleway:right:oneway"@, rc);
    assert(ranks_increase(presence) && ranks_within(presence, 6, 7));
    assert(ranks_increase(ob) && ranks_within(ob, 7, 8));
    assert(ranks_increase(cl) && ranks_within(cl, 8, 9));
    assert(ranks_increase(cr) && ranks_within(cr, 9, 10));
    lemma_ranks_concat(presence, ob, 6, 7, 8);
    lemma_ranks_concat(presence + ob, cl, 6, 8, 9);
    lemma_ranks_concat(presence + ob + cl, cr, 6, 9, 10);
    let h = head_part(l);
    assert(h.len() >= 2 && h[0].0 == "highway"@ && h[1].0 == "lanes"@);
    assert(h.len() == 3 ==> h[2].0 == "oneway"@);
    assert(ranks_increase(h) && ranks_within(h, 0, 3));
    let e = edge_part(l);
    assert(ranks_increase(e) && ranks_within(e, 3, 5));
}

/// The keys that the derivation writes are pairwise distinct, for every non-empty lane sequence.
pub proof fn lemma_derived_keys_distinct(l: Seq<Lane>)
    requires
        l.len() > 0,
    ensures
        keys_distinct(derived_tags(l)),
{
    lemma_part_ranks(l);
    lemma_ranks_concat(head_part(l), edge_part(l), 0, 3, 5);
    lemma_ranks_concat(head_part(l) + edge_part(l), parking_part(l), 0, 5, 6);
    lemma_ranks_concat(head_part(l) + edge_part(l) + parking_part(l), cycle_part(l), 0, 6, 10);
    lemma_ranks_concat(
        head_part(l) + edge_part(l) + parking_part(l) + cycle_part(l),
        bus_part(l),
        0,
        10,
        11,
    );
    lemma_ranks_concat(
        head_part(l) + edge_part(l) + parking_part(l) + cycle_part(l) + bus_part(l),
        both_ways_part(l),
        0,
        11,
        13,
    );
    let d = derived_tags(l);
    assert forall|i: int, j: int| 0 <= i < j < d.len() implies d[i].0 != d[j].0 by {
        assert(key_rank(d[i].0) < key_rank(d[j].0));
    }
}

fn push_pair(pairs: &mut Vec<(String, String)>, k: &str, v: String)
    ensures
        string_pairs(final(pairs)@) == string_pairs(old(pairs)@) + seq![(k@, v@)],
{
    let ghost before = pairs@;
    pairs.push((k.to_owned(), v));
    assert(string_pairs(pairs@) =~= string_pairs(before) + seq![(k@, v@)]);
}

fn first_in_exec(lanes: &[Lane], d: LaneDesignated, lo: usize, hi: usize) -> (r: Option<usize>)
    requires
        lo <= hi <= lanes@.len(),
    ensures
        match r {
            Some(i) => first_in(lanes@, d, lo as int, hi as int) == Some(i as int),
            None => first_in(lanes@, d, lo as int, hi as int) is None,
        },
{
    let mut i = lo;
    while i < hi
        invariant
            lo <= i <= hi <= lanes@.len(),
            first_in(lanes@, d, lo as int, hi as int) == first_in(lanes@, d, i as int, hi as int),
        decreases hi - i,
    {
        if lanes[i].is_travel_of(d) {
            return Some(i);
        }
        i = i + 1;
    }
    None
}

fn last_in_exec(lanes: &[Lane], d: LaneDesignated, lo: usize, hi: usize) -> (r: Option<usize>)
    requires
        lo <= hi <= lanes@.len(),
    ensures
        match r {
            Some(i) => last_in(lanes@, d, lo as int, hi as int) == Some(i as int),
            None => last_in(lanes@, d, lo as int, hi as int) is None,
        },
{
    let mut j = hi;
    while j > lo
        invariant
            lo <= j <= hi <= lanes@.len(),
            last_in(lanes@, d, lo as int, hi as int) == last_in(lanes@, d, lo as int, j as int),
        decreases j - lo,
    {
        if lanes[j - 1].is_travel_of(d) {
            return Some(j - 1);
        }
        j = j - 1;
    }
    None
}

proof fn lemma_first_in_bounds(l: Seq<Lane>, d: LaneDesignated, lo: int, hi: int)
    ensures
        first_in(l, d, lo, hi) matches Some(i) ==> lo <= i < hi && l[i].spec_is_travel_of(d),
        first_in(l, d, lo, hi) is None ==> forall|k: int|
            lo <= k < hi ==> !(#[trigger] l[k].spec_is_travel_of(d)),
    decreases hi - lo,
{
    if lo < hi {
        lemma_first_in_bounds(l, d, lo + 1, hi);
    }
}

proof fn lemma_last_in_bounds(l: Seq<Lane>, d: LaneDesignated, lo: int, hi: int)
    ensures
        last_in(l, d, lo, hi) matches Some(i) ==> lo <= i < hi && l[i].spec_is_travel_of(d),
        last_in(l, d, lo, hi) is None ==> forall|k: int|
            lo <= k < hi ==> !(#[trigger] l[k].spec_is_travel_of(d)),
    decreases hi - lo,
{
    if lo < hi {
        lemma_last_in_bounds(l, d, lo, hi - 1);
    }
}

/// `(first motor index, one past the last motor index)`, as `first_motor` and `last_motor + 1`.
fn motor_bounds(lanes: &[Lane]) -> (r: (usize, usize))
    ensures
        r.0 as int == first_motor(lanes@),
        r.1 as int == last_motor(lanes@) + 1,
        r.0 <= lanes@.len(),
        r.1 <= lanes@.len(),
{
    proof {
        lemma_first_in_bounds(lanes@, LaneDesignated::Motor, 0, lanes@.len() as int);
        lemma_last_in_bounds(lanes@, LaneDesignated::Motor, 0, lanes@.len() as int);
    }
    let n = lanes.len();
    let first = match first_in_exec(lanes, LaneDesignated::Motor, 0, n) {
        Some(i) => i,
        None => n,
    };
    let after_last = match last_in_exec(lanes, LaneDesignated::Motor, 0, n) {
        Some(i) => i + 1,
        None => 0,
    };
    (first, after_last)
}

fn count_motor_or_bus_exec(lanes: &[Lane]) -> (r: usize)
    ensures
        r as nat == count_motor_or_bus(lanes@),
{
    let mut cnt: usize = 0;
    let mut i: usize = 0;
    while i < lanes.len()
        invariant
            i <= lanes@.len(),
            cnt <= i,
            cnt as nat == count_motor_or_bus(lanes@.subrange(0, i as int)),
        decreases lanes.len() - i,
    {
        assert(lanes@.subrange(0, i + 1).drop_last() =~= lanes@.subrange(0, i as int));
        if lanes[i].is_motor() || lanes[i].is_bus() {
            cnt = cnt + 1;
        }
        i = i + 1;
    }
    assert(lanes@.subrange(0, lanes.len() as int) =~= lanes@);
    cnt
}

fn digit_str(d: usize) -> (r: &'static str)
    requires
        d < 10,
    ensures
        r@ == seq![digit_char(d as nat)],
{
    proof {
        reveal_strlit("0");
        reveal_strlit("1");
        reveal_strlit("2");
        reveal_strlit("3");
        reveal_strlit("4");
        reveal_strlit("5");
        reveal_strlit("6");
        reveal_strlit("7");
        reveal_strlit("8");
        reveal_strlit("9");
    }
    let r = if d == 0 {
        "0"
    } else if d == 1 {
        "1"
    } else if d == 2 {
        "2"
    } else if d == 3 {
        "3"
    } else if d == 4 {
        "4"
    } else if d == 5 {
        "5"
    } else if d == 6 {
        "6"
    } else if d == 7 {
        "7"
    } else if d == 8 {
        "8"
    } else {
        "9"
    };
    assert(r@ =~= seq![digit_char(d as nat)]);
    r
}

/// The decimal representation of `n`.
pub fn decimal_string(n: usize) -> (r: String)
    ensures
        r@ == decimal(n as nat),
    decreases n,
{
    if n < 10 {
        digit_str(n).to_owned()
    } else {
        decimal_string(n / 10).concat(digit_str(n % 10))
    }
}

fn all_motor_forward_exec(lanes: &[Lane]) -> (r: bool)
    ensures
        r == all_motor_forward(lanes@),
{
    let mut i: usize = 0;
    while i < lanes.len()
        invariant
            i <= lanes@.len(),
            forall|j: int|
                0 <= j < i && #[trigger] lanes@[j].spec_is_motor() ==> lanes@[j].spec_direction()
                    == Some(LaneDirection::Forward),
        decreases lanes.len() - i,
    {
        if lanes[i].is_motor() {
            match lanes[i].direction() {
                Some(LaneDirection::Forward) => {},
                _ => {
                    assert(lanes@[i as int].spec_is_motor());
                    return false;
                },
            }
        }
        i = i + 1;
    }
    true
}

fn any_parking(lanes: &[Lane], lo: usize, hi: usize) -> (r: bool)
    requires
        lo <= hi <= lanes@.len(),
    ensures
        r == exists|i: int| lo <= i < hi && #[trigger] lanes@[i] is Parking,
{
    let mut i = lo;
    while i < hi
        invariant
            lo <= i <= hi <= lanes@.len(),
            forall|j: int| lo <= j < i ==> !(#[trigger] lanes@[j] is Parking),
        decreases hi - i,
    {
        if lanes[i].is_parking() {
            assert(lanes@[i as int] is Parking);
            return true;
        }
        i = i + 1;
    }
    false
}

fn direction_of(lanes: &[Lane], i: Option<usize>) -> (r: Option<LaneDirection>)
    requires
        i matches Some(j) ==> j < lanes@.len(),
    ensures
        r == direction_at(
            lanes@,
            match i {
                Some(j) => Some(j as int),
                None => None,
            },
        ),
{
    match i {
        Some(j) => lanes[j].direction(),
        None => None,
    }
}

fn bus_lanes_exec(lanes: &[Lane]) -> (r: String)
    ensures
        r@ == bus_lanes_text(lanes@),
{
    let mut acc = String::new();
    let mut i: usize = 0;
    while i < lanes.len()
        invariant
            i <= lanes@.len(),
            acc@ == bus_lanes_text(lanes@.subrange(0, i as int)),
        decreases lanes.len() - i,
    {
        let item = if lanes[i].is_bus() {
            "designated"
        } else {
            ""
        };
        assert(lanes@.subrange(0, i + 1).drop_last() =~= lanes@.subrange(0, i as int));
        if i == 0 {
            acc = item.to_owned();
        } else {
            acc = acc.concat("|").concat(item);
        }
        i = i + 1;
    }
    assert(lanes@.subrange(0, lanes.len() as int) =~= lanes@);
    acc
}

fn has_both_ways_motor_exec(lanes: &[Lane]) -> (r: bool)
    ensures
        r == has_both_ways_motor(lanes@),
{
    let mut i: usize = 0;
    while i < lanes.len()
        invariant
            i <= lanes@.len(),
            forall|j: int|
                0 <= j < i ==> #[trigger] lanes@[j] != (Lane::Travel {
                    direction: Some(LaneDirection::Both),
                    designated: LaneDesignated::Motor,
                }),
        decreases lanes.len() - i,
    {
        if let Lane::Travel { direction: Some(LaneDirection::Both), designated: LaneDesignated::Motor } = lanes[i] {
            assert(lanes@[i as int] == (Lane::Travel {
                direction: Some(LaneDirection::Both),
                designated: LaneDesignated::Motor,
            }));
            return true;
        }
        i = i + 1;
    }
    false
}


fn side_word_exec(left: bool, right: bool) -> (r: &'static str)
    ensures
        r@ == side_word(left, right),
{
    if left && right {
        "both"
    } else if left {
        "left"
    } else if right {
        "right"
    } else {
        "no"
    }
}

fn oneway_word_exec(d: LaneDirection) -> (r: &'static str)
    ensures
        r@ == oneway_word(d),
{
    match d {
        LaneDirection::Forward => "yes",
        LaneDirection::Backward => "-1",
        LaneDirection::Both => "no",
    }
}

fn bus_value_exec(oneway: bool, lane: &Lane) -> (r: &'static str)
    ensures
        r@ == bus_value(oneway, *lane),
{
    if oneway {
        if let Some(LaneDirection::Backward) = lane.direction() {
            return "opposite_lane";
        }
    }
    "lane"
}

fn push_head(pairs: &mut Vec<(String, String)>, lanes: &[Lane]) -> (oneway: bool)
    ensures
        string_pairs(final(pairs)@) == string_pairs(old(pairs)@) + head_part(lanes@),
        oneway == all_motor_forward(lanes@),
{
    let ghost p0 = string_pairs(pairs@);
    push_pair(pairs, "highway", "road".to_owned());
    push_pair(pairs, "lanes", decimal_string(count_motor_or_bus_exec(lanes)));
    let oneway = all_motor_forward_exec(lanes);
    if oneway {
        push_pair(pairs, "oneway", "yes".to_owned());
    }
    assert(string_pairs(pairs@) =~= p0 + head_part(lanes@));
    oneway
}

fn push_edges(pairs: &mut Vec<(String, String)>, lanes: &[Lane])
    requires
        lanes@.len() > 0,
    ensures
        string_pairs(final(pairs)@) == string_pairs(old(pairs)@) + edge_part(lanes@),
{
    let ghost p0 = string_pairs(pairs@);
    let n = lanes.len();
    let first = &lanes[0];
    let last = &lanes[n - 1];
    push_pair(pairs, "shoulder", side_word_exec(first.is_shoulder(), last.is_shoulder()).to_owned());
    push_pair(pairs, "sidewalk", side_word_exec(first.is_foot(), last.is_foot()).to_owned());
    assert(string_pairs(pairs@) =~= p0 + edge_part(lanes@));
}

fn push_parking(pairs: &mut Vec<(String, String)>, lanes: &[Lane], first: usize, after_last: usize)
    requires
        first as int == first_motor(lanes@),
        after_last as int == last_motor(lanes@) + 1,
        first <= lanes@.len(),
        after_last <= lanes@.len(),
    ensures
        string_pairs(final(pairs)@) == string_pairs(old(pairs)@) + parking_part(lanes@),
{
    let ghost p0 = string_pairs(pairs@);
    let left = any_parking(lanes, 0, first);
    let right = after_last > 0 && any_parking(lanes, after_last, lanes.len());
    if left && right {
        push_pair(pairs, "parking:lane:both", "parallel".to_owned());
    } else if left {
        push_pair(pairs, "parking:lane:left", "parallel".to_owned());
    } else if right {
        push_pair(pairs, "parking:lane:right", "parallel".to_owned());
    }
    assert(string_pairs(pairs@) =~= p0 + parking_part(lanes@));
}

fn push_cycle(
    pairs: &mut Vec<(String, String)>,
    lanes: &[Lane],
    first: usize,
    after_last: usize,
    oneway: bool,
)
    requires
        first as int == first_motor(lanes@),
        after_last as int == last_motor(lanes@) + 1,
        first <= lanes@.len(),
        after_last <= lanes@.len(),
        oneway == all_motor_forward(lanes@),
    ensures
        string_pairs(final(pairs)@) == string_pairs(old(pairs)@) + cycle_part(lanes@),
{
    let ghost p0 = string_pairs(pairs@);
    let n = lanes.len();
    proof {
        lemma_first_in_bounds(lanes@, LaneDesignated::Bicycle, 0, first as int);
        lemma_last_in_bounds(lanes@, LaneDesignated::Bicycle, after_last as int, n as int);
    }
    let left = direction_of(lanes, first_in_exec(lanes, LaneDesignated::Bicycle, 0, first));
    let right = direction_of(lanes, last_in_exec(lanes, LaneDesignated::Bicycle, after_last, n));
    match (left, right) {
        (Some(_), Some(_)) => push_pair(pairs, "cycleway:both", "lane".to_owned()),
        (Some(_), None) => push_pair(pairs, "cycleway:left", "lane".to_owned()),
        (None, Some(_)) => push_pair(pairs, "cycleway:right", "lane".to_owned()),
        (None, None) => {},
    }
    let left_back = match left {
        Some(LaneDirection::Backward) => true,
        _ => false,
    };
    let right_back = match right {
        Some(LaneDirection::Backward) => true,
        _ => false,
    };
    if oneway && (left_back || right_back) {
        push_pair(pairs, "oneway:bicycle", "no".to_owned());
    }
    match left {
        Some(d) => push_pair(pairs, "cycleway:left:oneway", oneway_word_exec(d).to_owned()),
        None => {},
    }
    match right {
        Some(d) => push_pair(pairs, "cycleway:right:oneway", oneway_word_exec(d).to_owned()),
        None => {},
    }
    assert(string_pairs(pairs@) =~= p0 + cycle_part(lanes@));
}

fn push_bus(
    pairs: &mut Vec<(String, String)>,
    lanes: &[Lane],
    first: usize,
    after_last: usize,
    oneway: bool,
)
    requires
        first as int == first_motor(lanes@),
        after_last as int == last_motor(lanes@) + 1,
        first <= lanes@.len(),
        after_last <= lanes@.len(),
        oneway == all_motor_forward(lanes@),
    ensures
        string_pairs(final(pairs)@) == string_pairs(old(pairs)@) + bus_part(lanes@),
{
    let ghost p0 = string_pairs(pairs@);
    let n = lanes.len();
    proof {
        lemma_first_in_bounds(lanes@, LaneDesignated::Bus, 0, first as int);
        lemma_last_in_bounds(lanes@, LaneDesignated::Bus, after_last as int, n as int);
    }
    let left = first_in_exec(lanes, LaneDesignated::Bus, 0, first);
    let right = last_in_exec(lanes, LaneDesignated::Bus, after_last, n);
    if left.is_none() && right.is_none() && first_in_exec(lanes, LaneDesignated::Bus, 0, n).is_some() {
        push_pair(pairs, "bus:lanes", bus_lanes_exec(lanes));
    } else {
        match (left, right) {
            (Some(i), None) => push_pair(pairs, "busway:left", bus_value_exec(oneway, &lanes[i]).to_owned()),
            (None, Some(j)) => push_pair(pairs, "busway:right", bus_value_exec(oneway, &lanes[j]).to_owned()),
            (Some(_), Some(_)) => push_pair(pairs, "busway:both", "lane".to_owned()),
            (None, None) => {},
        }
    }
    assert(string_pairs(pairs@) =~= p0 + bus_part(lanes@));
}

fn push_both_ways(pairs: &mut Vec<(String, String)>, lanes: &[Lane])
    ensures
        string_pairs(final(pairs)@) == string_pairs(old(pairs)@) + both_ways_part(lanes@),
{
    let ghost p0 = string_pairs(pairs@);
    if has_both_ways_motor_exec(lanes) {
        push_pair(pairs, "lanes:both_ways", "1".to_owned());
        push_pair(pairs, "turn:lanes:both_ways", "left".to_owned());
    }
    assert(string_pairs(pairs@) =~= p0 + both_ways_part(lanes@));
}

/// Synthesizes the tags that describe a finalized lane sequence.
///
/// The tags are written in a fixed order, and no key is written twice. Where
/// `check_roundtrip` is set, the caller converts the tags back to lanes and hands both
/// sequences to [`check_roundtrip`].
pub fn lanes_to_tags(lanes: &[Lane], _locale: &Locale, _config: &LanesToTagsConfig) -> (r: Result<
    Tags,
    RoadError,
>)
    requires
        lanes@.len() > 0,
    ensures
        reverse_result(lanes@, r),
{
    let mut pairs: Vec<(String, String)> = Vec::new();
    assert(string_pairs(pairs@) =~= Seq::empty());
    let (first, after_last) = motor_bounds(lanes);
    let oneway = push_head(&mut pairs, lanes);
    push_edges(&mut pairs, lanes);
    push_parking(&mut pairs, lanes, first, after_last);
    push_cycle(&mut pairs, lanes, first, after_last, oneway);
    push_bus(&mut pairs, lanes, first, after_last, oneway);
    push_both_ways(&mut pairs, lanes);
    assert(string_pairs(pairs@) =~= derived_tags(lanes@));
    proof {
        lemma_derived_keys_distinct(lanes@);
    }
    match Tags::try_from_pairs(&pairs) {
        Ok(t) => Ok(t),
        Err(e) => Err(RoadError::TagsDuplicateKey(e)),
    }
}

/// Compares the lanes that the produced tags convert back to with the input lanes.
pub fn check_roundtrip(lanes: &[Lane], roundtrip: &[Lane]) -> (r: Result<(), RoadError>)
    ensures
        r is Ok <==> lanes@ == roundtrip@,
        r matches Err(e) ==> e is RoundTrip,
{
    if lanes.len() != roundtrip.len() {
        return Err(RoadError::RoundTrip);
    }
    let mut i: usize = 0;
    while i < lanes.len()
        invariant
            i <= lanes@.len(),
            lanes@.len() == roundtrip@.len(),
            forall|j: int| 0 <= j < i ==> lanes@[j] == roundtrip@[j],
        decreases lanes.len() - i,
    {
        if lanes[i] != roundtrip[i] {
            return Err(RoadError::RoundTrip);
        }
        i = i + 1;
    }
    assert(lanes@ =~= roundtrip@);
    Ok(())
}

} // verus!
