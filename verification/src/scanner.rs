//! AOB (array of bytes) scanning of the game module.

use vstd::prelude::*;
use vstd::bytes::*;
use vstd::slice::slice_subrange;
use std::collections::HashMap;
use vstd::std_specs::hash::spec_hash_map_iter;
use vstd::std_specs::iter::IteratorSpec;

use crate::error::{AppError, AppResult};
use crate::hooks::inject::i32_of_u32;

verus! {

broadcast use vstd::std_specs::hash::group_hash_axioms;

/// A byte pattern to search for in module memory.
pub struct Pattern {
    /// Human-readable name (e.g. "entity", "position", "map").
    pub name: &'static str,
    /// Byte pattern to search for.
    pub pattern: &'static [u8],
    /// Offset from the pattern match to the hook address.
    pub offset: u64,
}


/// The address that a pattern resolves to: its first match plus its offset (mod 2^64).
pub open spec fn pattern_address(data: Seq<u8>, pat: Seq<u8>, base: u64, offset: u64) -> u64 {
    wrap_u64(base + first_match_index(data, pat) + offset)
}

/// Whether `pat` occurs somewhere in `data`.
pub open spec fn pattern_found(data: Seq<u8>, pat: Seq<u8>) -> bool {
    !no_match_from(data, pat, 0)
}

/// The message of a pattern that was not found.
pub open spec fn not_found_message(name: Seq<char>) -> Seq<char> {
    "AOB pattern '"@ + name + "' not found in module"@
}

/// Entity read (`mov rax,[rsi]; vmovups [rax+0x1B0],xmm0`); the hook is 3 bytes in.
pub open spec fn entity_pattern_bytes() -> Seq<u8> {
    seq![0x48u8, 0x8Bu8, 0x06u8, 0xC5u8, 0xF8u8, 0x11u8, 0x88u8, 0xB0u8, 0x01u8, 0x00u8, 0x00u8]
}

/// Position write (`movups [rcx+0x90],xmm3`).
pub open spec fn position_pattern_bytes() -> Seq<u8> {
    seq![0x0Fu8, 0x11u8, 0x99u8, 0x90u8, 0x00u8, 0x00u8, 0x00u8]
}

/// Marker destination write; the hook is 4 bytes in.
pub open spec fn map_pattern_bytes() -> Seq<u8> {
    seq![
        0xC5u8, 0xFBu8, 0x10u8, 0x07u8, 0xC5u8, 0xFBu8, 0x11u8, 0x02u8,
        0x8Bu8, 0x47u8, 0x08u8, 0x89u8, 0x42u8, 0x08u8,
    ]
}

/// Camera heading store.
pub open spec fn camera_pattern_bytes() -> Seq<u8> {
    seq![
        0xC4u8, 0xC1u8, 0x7Au8, 0x11u8, 0x97u8, 0xA4u8, 0x04u8, 0x00u8, 0x00u8,
        0xC5u8, 0x78u8, 0x2Fu8, 0xCEu8,
    ]
}

/// Hook addresses found by a scan.
pub struct ScanResults {
    /// Entity hook (entity pattern + 3).
    pub entity: u64,
    /// Position hook (position pattern + 0).
    pub position: u64,
    /// Map hook (map pattern + 4).
    pub map: u64,
    /// Camera hook (camera pattern + 0).
    pub camera: u64,
    /// World offset, resolved through the rel32 of the world pattern.
    pub world_offset: u64,
}

impl ScanResults {
    /// All scanned addresses are non-zero.
    pub fn is_valid(&self) -> (valid: bool)
        ensures
            valid == (self.entity != 0 && self.position != 0 && self.map != 0 && self.camera
                != 0 && self.world_offset != 0),
    {
        self.entity != 0 && self.position != 0 && self.map != 0 && self.camera != 0
            && self.world_offset != 0
    }
}

/// Whether `pat` occurs in `data` at index `i`.
pub open spec fn matches_at(data: Seq<u8>, pat: Seq<u8>, i: int) -> bool {
    0 <= i && i + pat.len() <= data.len() && data.subrange(i, i + pat.len()) == pat
}

/// `i` is the first occurrence of `pat` in `data` at or after `start`.
pub open spec fn is_first_match_from(data: Seq<u8>, pat: Seq<u8>, start: int, i: int) -> bool {
    &&& start <= i
    &&& matches_at(data, pat, i)
    &&& forall|j: int| start <= j < i ==> !matches_at(data, pat, j)
}

/// `pat` occurs nowhere in `data` at or after `start`.
pub open spec fn no_match_from(data: Seq<u8>, pat: Seq<u8>, start: int) -> bool {
    forall|j: int| start <= j ==> !matches_at(data, pat, j)
}

/// Addition of addresses modulo 2^64.
pub open spec fn wrap_u64(x: int) -> u64 {
    (x % 0x1_0000_0000_0000_0000) as u64
}


/// The index of the first occurrence of `pat` in `data` (meaningful when one exists).
pub open spec fn first_match_index(data: Seq<u8>, pat: Seq<u8>) -> int {
    choose|i: int| is_first_match_from(data, pat, 0, i)
}

/// The bytes of `vsubps xmm0, xmm0, [rip+disp32]` that precede the world offset.
pub open spec fn world_pattern() -> Seq<u8> {
    seq![0xC5u8, 0xF8u8, 0x5Cu8, 0x05u8]
}

/// The signed rel32 displacement stored right after a world match at `i`.
pub open spec fn world_disp(data: Seq<u8>, i: int) -> int {
    i32_of_u32(spec_u32_from_le_bytes(data.subrange(i + 4, i + 8)))
}

/// The RIP-relative target of the world match at `i`: base + i + 8 + disp (mod 2^64).
pub open spec fn world_target(data: Seq<u8>, base: u64, i: int) -> u64 {
    wrap_u64(base + i + 8 + world_disp(data, i))
}

/// A world match at `i` whose displacement lies inside the data.
pub open spec fn world_counted_at(data: Seq<u8>, i: int) -> bool {
    matches_at(data, world_pattern(), i) && i + 8 <= data.len()
}

/// Targets of the counted world matches below index `n`, in order.
pub open spec fn world_targets_upto(data: Seq<u8>, base: u64, n: nat) -> Seq<u64>
    decreases n,
{
    if n == 0 {
        Seq::empty()
    } else {
        let prev = world_targets_upto(data, base, (n - 1) as nat);
        if world_counted_at(data, n - 1) {
            prev.push(world_target(data, base, n - 1))
        } else {
            prev
        }
    }
}

/// All world targets: one for each world match whose rel32 lies inside the data.
pub open spec fn world_targets(data: Seq<u8>, base: u64) -> Seq<u64> {
    world_targets_upto(data, base, data.len())
}

/// The count map holds exactly the targets seen, each with its number of occurrences.
pub open spec fn counts_model(m: Map<u64, usize>, seen: Seq<u64>) -> bool {
    forall|x: u64|
        #[trigger] m.contains_key(x) == (occurrences(seen, x) > 0) && (m.contains_key(x) ==> m[x]
            == occurrences(seen, x))
}

/// Number of occurrences of `x` in `s`.
pub open spec fn occurrences(s: Seq<u64>, x: u64) -> nat
    decreases s.len(),
{
    if s.len() == 0 {
        0
    } else {
        occurrences(s.drop_last(), x) + if s.last() == x {
            1nat
        } else {
            0nat
        }
    }
}

/// `t` is a most frequent element of `s`.
pub open spec fn is_most_frequent(s: Seq<u64>, t: u64) -> bool {
    occurrences(s, t) > 0 && forall|x: u64| occurrences(s, x) <= occurrences(s, t)
}


/// A pattern that occurs somewhere has a first occurrence.
pub proof fn lemma_first_match_exists(data: Seq<u8>, pat: Seq<u8>)
    requires
        pattern_found(data, pat),
    ensures
        is_first_match_from(data, pat, 0, first_match_index(data, pat)),
{
    let j = choose|j: int| 0 <= j && matches_at(data, pat, j);
    lemma_first_match_below(data, pat, j);
}

proof fn lemma_first_match_below(data: Seq<u8>, pat: Seq<u8>, j: int)
    requires
        0 <= j,
        matches_at(data, pat, j),
    ensures
        exists|i: int| is_first_match_from(data, pat, 0, i),
    decreases j,
{
    if forall|k: int| 0 <= k < j ==> !matches_at(data, pat, k) {
        assert(is_first_match_from(data, pat, 0, j));
    } else {
        let k = choose|k: int| 0 <= k < j && matches_at(data, pat, k);
        lemma_first_match_below(data, pat, k);
    }
}

proof fn lemma_first_match_unique(data: Seq<u8>, pat: Seq<u8>, i: int)
    requires
        is_first_match_from(data, pat, 0, i),
    ensures
        first_match_index(data, pat) == i,
{
    let j = first_match_index(data, pat);
    assert(is_first_match_from(data, pat, 0, j));
    if j < i {
        assert(!matches_at(data, pat, j));
    }
    if i < j {
        assert(!matches_at(data, pat, i));
    }
}

proof fn lemma_occurrences_push(s: Seq<u64>, y: u64, x: u64)
    ensures
        occurrences(s.push(y), x) == occurrences(s, x) + if y == x {
            1nat
        } else {
            0nat
        },
{
    assert(s.push(y).drop_last() =~= s);
}

proof fn lemma_occurrences_le_len(s: Seq<u64>, x: u64)
    ensures
        occurrences(s, x) <= s.len(),
    decreases s.len(),
{
    if s.len() > 0 {
        lemma_occurrences_le_len(s.drop_last(), x);
    }
}

proof fn lemma_world_targets_len(data: Seq<u8>, base: u64, n: nat)
    ensures
        world_targets_upto(data, base, n).len() <= n,
    decreases n,
{
    if n > 0 {
        lemma_world_targets_len(data, base, (n - 1) as nat);
    }
}

/// No counted world match in `[a, b)` leaves the targets unchanged.
proof fn lemma_world_targets_skip(data: Seq<u8>, base: u64, a: nat, b: nat)
    requires
        a <= b,
        forall|j: int| a <= j < b ==> !world_counted_at(data, j),
    ensures
        world_targets_upto(data, base, b) == world_targets_upto(data, base, a),
    decreases b - a,
{
    if a < b {
        lemma_world_targets_skip(data, base, a, (b - 1) as nat);
    }
}

/// Compares `pat` with `data` at index `i`.
fn matches_here(data: &[u8], pat: &[u8], i: usize) -> (res: bool)
    requires
        i + pat@.len() <= data@.len(),
    ensures
        res == matches_at(data@, pat@, i as int),
{
    let n = data.len();
    let mut k: usize = 0;
    while k < pat.len()
        invariant
            n == data@.len(),
            i + pat@.len() <= data@.len(),
            k <= pat@.len(),
            forall|m: int| 0 <= m < k ==> data@[i + m] == pat@[m],
        decreases pat@.len() - k,
    {
        if data[i + k] != pat[k] {
            assert(data@.subrange(i as int, i + pat@.len())[k as int] != pat@[k as int]);
            return false;
        }
        k = k + 1;
    }
    assert(data@.subrange(i as int, i + pat@.len()) =~= pat@);
    true
}

impl Scanner {
    fn entity() -> (p: Pattern)
        ensures
            p.pattern@ == entity_pattern_bytes(),
            p.name@ == "entity"@,
            p.offset == 3,
    {
        let pattern: &'static [u8] = &[
            0x48u8, 0x8Bu8, 0x06u8, 0xC5u8, 0xF8u8, 0x11u8, 0x88u8, 0xB0u8, 0x01u8, 0x00u8, 0x00u8,
        ];
        Pattern { name: "entity", pattern, offset: 3 }
    }

    fn position() -> (p: Pattern)
        ensures
            p.pattern@ == position_pattern_bytes(),
            p.name@ == "position"@,
            p.offset == 0,
    {
        let pattern: &'static [u8] = &[0x0Fu8, 0x11u8, 0x99u8, 0x90u8, 0x00u8, 0x00u8, 0x00u8];
        Pattern { name: "position", pattern, offset: 0 }
    }

    fn map() -> (p: Pattern)
        ensures
            p.pattern@ == map_pattern_bytes(),
            p.name@ == "map"@,
            p.offset == 4,
    {
        let pattern: &'static [u8] = &[
            0xC5u8, 0xFBu8, 0x10u8, 0x07u8, 0xC5u8, 0xFBu8, 0x11u8, 0x02u8,
            0x8Bu8, 0x47u8, 0x08u8, 0x89u8, 0x42u8, 0x08u8,
        ];
        Pattern { name: "map", pattern, offset: 4 }
    }

    fn camera() -> (p: Pattern)
        ensures
            p.pattern@ == camera_pattern_bytes(),
            p.name@ == "camera"@,
            p.offset == 0,
    {
        let pattern: &'static [u8] = &[
            0xC4u8, 0xC1u8, 0x7Au8, 0x11u8, 0x97u8, 0xA4u8, 0x04u8, 0x00u8, 0x00u8,
            0xC5u8, 0x78u8, 0x2Fu8, 0xCEu8,
        ];
        Pattern { name: "camera", pattern, offset: 0 }
    }

    /// Scan module memory for all patterns: the four hook addresses are the first
    /// matches plus their offsets, the world offset the most frequent world target.
    pub fn scan(module_data: &[u8], module_base: u64) -> (res: AppResult<ScanResults>)
        ensures
            res is Ok <==> (pattern_found(module_data@, entity_pattern_bytes()) && pattern_found(
                module_data@,
                position_pattern_bytes(),
            ) && pattern_found(module_data@, map_pattern_bytes()) && pattern_found(
                module_data@,
                camera_pattern_bytes(),
            ) && world_targets(module_data@, module_base).len() > 0),
            !pattern_found(module_data@, entity_pattern_bytes()) ==> (res matches Err(
                AppError::PatternNotFound(msg),
            ) && msg@ == not_found_message("entity"@)),
            pattern_found(module_data@, entity_pattern_bytes()) && !pattern_found(
                module_data@,
                position_pattern_bytes(),
            ) ==> (res matches Err(AppError::PatternNotFound(msg)) && msg@ == not_found_message(
                "position"@,
            )),
            pattern_found(module_data@, entity_pattern_bytes()) && pattern_found(
                module_data@,
                position_pattern_bytes(),
            ) && !pattern_found(module_data@, map_pattern_bytes()) ==> (res matches Err(
                AppError::PatternNotFound(msg),
            ) && msg@ == not_found_message("map"@)),
            pattern_found(module_data@, entity_pattern_bytes()) && pattern_found(
                module_data@,
                position_pattern_bytes(),
            ) && pattern_found(module_data@, map_pattern_bytes()) && !pattern_found(
                module_data@,
                camera_pattern_bytes(),
            ) ==> (res matches Err(AppError::PatternNotFound(msg)) && msg@ == not_found_message(
                "camera"@,
            )),
            pattern_found(module_data@, entity_pattern_bytes()) && pattern_found(
                module_data@,
                position_pattern_bytes(),
            ) && pattern_found(module_data@, map_pattern_bytes()) && pattern_found(
                module_data@,
                camera_pattern_bytes(),
            ) && world_targets(module_data@, module_base).len() == 0 ==> (res matches Err(
                AppError::PatternNotFound(msg),
            ) && msg@ == "AOB pattern 'world' not found or no valid rel32 targets"@),
            res matches Err(e) ==> e is PatternNotFound,
            res matches Ok(r) ==> {
                &&& r.entity == pattern_address(module_data@, entity_pattern_bytes(), module_base, 3)
                &&& r.position == pattern_address(
                    module_data@,
                    position_pattern_bytes(),
                    module_base,
                    0,
                )
                &&& r.map == pattern_address(module_data@, map_pattern_bytes(), module_base, 4)
                &&& r.camera == pattern_address(module_data@, camera_pattern_bytes(), module_base, 0)
                &&& is_most_frequent(world_targets(module_data@, module_base), r.world_offset)
            },
    {
        let entity = match Self::find_pattern(&Self::entity(), module_data, module_base) {
            Ok(a) => a,
            Err(e) => return Err(e),
        };
        let position = match Self::find_pattern(&Self::position(), module_data, module_base) {
            Ok(a) => a,
            Err(e) => return Err(e),
        };
        let map = match Self::find_pattern(&Self::map(), module_data, module_base) {
            Ok(a) => a,
            Err(e) => return Err(e),
        };
        let camera = match Self::find_pattern(&Self::camera(), module_data, module_base) {
            Ok(a) => a,
            Err(e) => return Err(e),
        };
        let world_offset = match Self::find_world_offset(module_data, module_base) {
            Ok(a) => a,
            Err(e) => return Err(e),
        };
        Ok(ScanResults { entity, position, map, camera, world_offset })
    }
    /// Find the first occurrence of `pattern` in `data` at or after `start`.
    pub fn find_in_range(data: &[u8], pattern: &[u8], start: usize) -> (res: Option<usize>)
        requires
            start <= data@.len(),
            pattern@.len() > 0,
        ensures
            res matches Some(i) ==> is_first_match_from(data@, pattern@, start as int, i as int),
            res is None ==> no_match_from(data@, pattern@, start as int),
    {
        let n = data.len();
        let m = pattern.len();
        if m > n - start {
            return None;
        }
        let mut i: usize = start;
        while i <= n - m
            invariant
                n == data@.len(),
                m == pattern@.len(),
                m > 0,
                m <= n,
                start <= i,
                forall|j: int| start <= j < i ==> !matches_at(data@, pattern@, j),
            decreases n - i,
        {
            if matches_here(data, pattern, i) {
                return Some(i);
            }
            i = i + 1;
        }
        None
    }


    /// Resolve the world offset: every occurrence of the world pattern whose rel32
    /// lies inside the data yields a RIP-relative target, and the most frequent
    /// target wins.
    pub fn find_world_offset(module_data: &[u8], module_base: u64) -> (res: AppResult<u64>)
        ensures
            world_targets(module_data@, module_base).len() == 0 <==> res is Err,
            res matches Err(e) ==> (e matches AppError::PatternNotFound(msg) && msg@
                == "AOB pattern 'world' not found or no valid rel32 targets"@),
            res matches Ok(t) ==> is_most_frequent(world_targets(module_data@, module_base), t),
    {
        let n = module_data.len();
        let pattern: &[u8] = &[0xC5u8, 0xF8u8, 0x5Cu8, 0x05u8];
        assert(pattern@ == world_pattern());
        // Matches at positions below `limit` have their whole rel32 inside the data.
        let limit: usize = if n >= 8 {
            n - 7
        } else {
            0
        };
        let mut counts: HashMap<u64, usize> = HashMap::new();
        let mut pos: usize = 0;
        let mut done = false;
        while !done && pos < limit
            invariant
                n == module_data@.len(),
                pattern@ == world_pattern(),
                limit == if n >= 8 { n - 7 } else { 0 },
                pos <= n,
                n < 8 ==> pos == 0,
                done ==> no_match_from(module_data@, world_pattern(), pos as int),
                counts_model(counts@, world_targets_upto(module_data@, module_base, pos as nat)),
            decreases n - pos, if done { 0int } else { 1int },
        {
            match Self::find_in_range(module_data, pattern, pos) {
                Some(idx) => {
                    let ghost old_t = world_targets_upto(module_data@, module_base, pos as nat);
                    proof {
                        lemma_world_targets_skip(module_data@, module_base, pos as nat, idx as nat);
                        lemma_world_targets_len(module_data@, module_base, idx as nat);
                        lemma_occurrences_le_len(old_t, 0);
                    }
                    if idx <= n - 8 {
                        let window = slice_subrange(module_data, idx + 4, idx + 8);
                        let raw = u32_from_le_bytes(window);
                        let disp: i64 = if raw < 0x8000_0000u32 {
                            raw as i64
                        } else {
                            raw as i64 - 0x1_0000_0000i64
                        };
                        let t: i128 = module_base as i128 + idx as i128 + 8 + disp as i128;
                        let w: u128 = if t < 0 {
                            (t + 0x1_0000_0000_0000_0000i128) as u128
                        } else {
                            (t as u128) % 0x1_0000_0000_0000_0000u128
                        };
                        let target: u64 = w as u64;
                        assert(target == world_target(module_data@, module_base, idx as int));
                        let seen: usize = match counts.get(&target) {
                            Some(c) => *c,
                            None => 0,
                        };
                        proof {
                            lemma_occurrences_le_len(old_t, target);
                        }
                        counts.insert(target, seen + 1);
                        proof {
                            assert forall|x: u64| #[trigger] occurrences(old_t.push(target), x)
                                == occurrences(old_t, x) + if target == x { 1nat } else { 0nat } by {
                                lemma_occurrences_push(old_t, target, x);
                            }
                        }
                        assert(world_targets_upto(module_data@, module_base, (idx + 1) as nat)
                            == old_t.push(target));
                    } else {
                        assert(!world_counted_at(module_data@, idx as int));
                        assert(world_targets_upto(module_data@, module_base, (idx + 1) as nat)
                            == old_t);
                    }
                    pos = idx + 1;
                },
                None => {
                    done = true;
                },
            }
        }
        let ghost all = world_targets_upto(module_data@, module_base, pos as nat);
        proof {
            assert forall|j: int| pos <= j < n implies !world_counted_at(module_data@, j) by {
                if done {
                    assert(!matches_at(module_data@, world_pattern(), j));
                }
            }
            lemma_world_targets_skip(module_data@, module_base, pos as nat, n as nat);
        }
        if counts.len() == 0 {
            proof {
                if all.len() > 0 {
                    lemma_occurrences_push(all.drop_last(), all.last(), all.last());
                    assert(all.drop_last().push(all.last()) == all);
                    assert(counts@.contains_key(all.last()));
                    assert(counts@.dom().contains(all.last()));
                }
            }
            return Err(
                AppError::PatternNotFound(
                    String::from_str("AOB pattern 'world' not found or no valid rel32 targets"),
                ),
            );
        }
        Ok(Self::most_frequent(&counts, Ghost(all)))
    }

    /// A key of `counts` with the largest count: the first such in the map's walk order.
    fn most_frequent(counts: &HashMap<u64, usize>, Ghost(seen): Ghost<Seq<u64>>) -> (t: u64)
        requires
            counts_model(counts@, seen),
            counts@.len() > 0,
        ensures
            is_most_frequent(seen, t),
    {
        let mut best: u64 = 0;
        let mut best_count: usize = 0;
        let entries = counts.iter();
        let ghost items = entries.remaining();
        let ghost mut walked: int = 0;
        for (k, v) in it: entries
            invariant
                counts_model(counts@, seen),
                items == spec_hash_map_iter(counts).remaining(),
                it.seq() == items,
                walked == it.index(),
                it.index() <= items.len(),
                best_count == 0 || (counts@.contains_key(best) && counts@[best] == best_count),
                forall|j: int| 0 <= j < walked ==> *#[trigger] items[j].1 <= best_count,
        {
            if *v > best_count {
                best = *k;
                best_count = *v;
            }
            proof {
                walked = walked + 1;
            }
        }
        assert(walked == items.len());
        proof {
            assert forall|x: u64| occurrences(seen, x) <= occurrences(seen, best) by {
                if counts@.contains_key(x) {
                    assert(items.contains((&x, &counts@[x])));
                    let j = choose|j: int| 0 <= j < items.len() && items[j] == (&x, &counts@[x]);
                    assert(*items[j].1 <= best_count);
                }
            }
            let x = counts@.dom().choose();
            assert(counts@.dom().contains(x));
            assert(items.contains((&x, &counts@[x])));
        }
        best
    }

    /// Find `pattern` in `module_data` and return the address of its first match
    /// plus the pattern's offset (addresses wrap modulo 2^64).
    pub fn find_pattern(pattern: &Pattern, module_data: &[u8], module_base: u64) -> (res: AppResult<u64>)
        requires
            pattern.pattern@.len() > 0,
        ensures
            res matches Ok(addr) ==> addr == pattern_address(
                module_data@,
                pattern.pattern@,
                module_base,
                pattern.offset,
            ),
            res matches Err(e) ==> no_match_from(module_data@, pattern.pattern@, 0) && (e matches AppError::PatternNotFound(msg) && msg@ == not_found_message(pattern.name@)),
            no_match_from(module_data@, pattern.pattern@, 0) <==> res is Err,
    {
        match Self::find_in_range(module_data, pattern.pattern, 0) {
            Some(idx) => {
                let a: u128 = module_base as u128 + idx as u128 + pattern.offset as u128;
                let w: u128 = a % 0x1_0000_0000_0000_0000u128;
                proof {
                    lemma_first_match_unique(module_data@, pattern.pattern@, idx as int);
                }
                Ok(w as u64)
            },
            None => {
                let mut msg = String::from_str("AOB pattern '");
                msg.append(pattern.name);
                msg.append("' not found in module");
                Err(AppError::PatternNotFound(msg))
            },
        }
    }
}

/// Pattern definitions of the game engine.
pub struct Scanner;

} // verus!
