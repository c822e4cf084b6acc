//! Module information, process-name decoding and the address choices made
//! while allocating memory near a hook.

use vstd::prelude::*;
use vstd::utf8::{decode_utf8, valid_utf8};
use vstd::string::StringSliceAdditionalSpecFns;
use vstd::arithmetic::div_mod::{lemma_add_mod_noop, lemma_sub_mod_noop};

use crate::hooks::inject::signed64;
use crate::scanner::wrap_u64;

verus! {

/// Distance limit of a rel32 jump.
pub const REL32_RANGE: u64 = 0x7FFF_FFFF;

/// Lowest address that can be allocated in user space.
pub const MIN_USER_ADDRESS: u64 = 0x10000;

/// Step between two addresses tried by a near allocation.
pub const ALLOC_PROBE_STEP: u64 = 0x10000;

/// Step between two addresses tried when placing the hook block.
pub const BLOCK_PROBE_STEP: u64 = 0x100000;

/// Farthest offset tried when placing the hook block.
pub const BLOCK_PROBE_MAX_OFFSET: u64 = 0x8000000;

/// Information about a loaded module in a process.
pub struct ModuleInfo {
    pub name: String,
    pub base_address: u64,
    pub size: u64,
}

/// The text that `String::from_utf8_lossy` makes of `bytes`.
pub uninterp spec fn utf8_lossy(bytes: Seq<u8>) -> Seq<char>;

/// `String::from_utf8_lossy(bytes).into_owned()`: the bytes decoded as UTF-8,
/// invalid sequences replaced by U+FFFD. Stated: the result is a function of the
/// bytes, and valid UTF-8 decodes unchanged (std's documentation); the
/// replacement of invalid sequences is not spelled out.
#[verifier::external_body]
fn string_from_utf8_lossy(bytes: &[u8]) -> (s: String)
    ensures
        s@ == utf8_lossy(bytes@),
        valid_utf8(bytes@) ==> s@ == decode_utf8(bytes@),
{
    String::from_utf8_lossy(bytes).into_owned()
}

/// Index of the first NUL in `arr`, or its length.
pub open spec fn nul_position(arr: Seq<i8>) -> int {
    if exists|i: int| 0 <= i < arr.len() && arr[i] == 0 {
        choose|i: int| 0 <= i < arr.len() && arr[i] == 0 && forall|j: int| 0 <= j < i ==> arr[j] != 0
    } else {
        arr.len() as int
    }
}

/// The byte that a C `char` holds.
pub open spec fn char_byte(c: i8) -> u8 {
    if c < 0 {
        (c + 256) as u8
    } else {
        c as u8
    }
}

/// The bytes of a NUL-terminated C string (those before the first NUL).
pub open spec fn c_string_bytes(arr: Seq<i8>) -> Seq<u8> {
    arr.subrange(0, nul_position(arr)).map_values(|c: i8| char_byte(c))
}

/// Decode a NUL-terminated C `char` array (as in `PROCESSENTRY32::szExeFile`).
pub fn char_array_to_string(arr: &[i8]) -> (s: String)
    ensures
        s@ == utf8_lossy(c_string_bytes(arr@)),
        valid_utf8(c_string_bytes(arr@)) ==> s@ == decode_utf8(c_string_bytes(arr@)),
{
    let n = arr.len();
    let mut null_pos: usize = 0;
    while null_pos < n && arr[null_pos] != 0
        invariant
            n == arr@.len(),
            null_pos <= n,
            forall|j: int| 0 <= j < null_pos ==> arr@[j] != 0,
        decreases n - null_pos,
    {
        null_pos = null_pos + 1;
    }
    let mut bytes: Vec<u8> = Vec::with_capacity(null_pos);
    let mut i: usize = 0;
    while i < null_pos
        invariant
            n == arr@.len(),
            null_pos <= n,
            i <= null_pos,
            bytes@ == arr@.subrange(0, i as int).map_values(|c: i8| char_byte(c)),
        decreases null_pos - i,
    {
        let c = arr[i];
        let b: u8 = if c < 0 {
            (c as i16 + 256) as u8
        } else {
            c as u8
        };
        bytes.push(b);
        i = i + 1;
        assert(bytes@ =~= arr@.subrange(0, i as int).map_values(|c: i8| char_byte(c)));
    }
    proof {
        if null_pos < n {
            assert(arr@[null_pos as int] == 0);
            let k = nul_position(arr@);
            assert(0 <= k < n && arr@[k] == 0 && forall|j: int| 0 <= j < k ==> arr@[j] != 0);
            if k < null_pos {
                assert(arr@[k] != 0);
            }
            if null_pos < k {
                assert(arr@[null_pos as int] != 0);
            }
        }
        assert(c_string_bytes(arr@) == bytes@);
    }
    string_from_utf8_lossy(bytes.as_slice())
}

/// The two addresses probed at `offset` around `near` (above and below,
/// saturating at the ends of the address space).
pub fn probe_addresses(near: u64, offset: u64) -> (p: (u64, u64))
    ensures
        p.0 == if near + offset > u64::MAX { u64::MAX as int } else { near + offset },
        p.1 == if near < offset { 0 } else { near - offset },
{
    let up: u64 = if near > u64::MAX - offset {
        u64::MAX
    } else {
        near + offset
    };
    let down: u64 = if near < offset {
        0
    } else {
        near - offset
    };
    (up, down)
}

/// Whether an address can be handed to the allocator.
pub fn is_user_address(addr: u64) -> (ok: bool)
    ensures
        ok == (addr >= MIN_USER_ADDRESS),
{
    addr >= MIN_USER_ADDRESS
}

/// Whether `allocated` lies within rel32 reach of `near`.
pub fn within_rel32(near: u64, allocated: u64) -> (ok: bool)
    ensures
        ok == (-(REL32_RANGE as int) < signed64(allocated) - signed64(near) < REL32_RANGE),
{
    let a: i128 = if allocated < 0x8000_0000_0000_0000 {
        allocated as i128
    } else {
        allocated as i128 - 0x1_0000_0000_0000_0000i128
    };
    let b: i128 = if near < 0x8000_0000_0000_0000 {
        near as i128
    } else {
        near as i128 - 0x1_0000_0000_0000_0000i128
    };
    let d = a - b;
    -(REL32_RANGE as i128) < d && d < REL32_RANGE as i128
}

/// The addresses tried, in order, when placing the hook block near `near`:
/// for each offset of 1 MiB, 2 MiB, ... below 128 MiB, first above, then below
/// (wrapping at the ends of the address space).
pub open spec fn block_candidates_spec(near: u64) -> Seq<u64> {
    Seq::new(
        254,
        |i: int|
            if i % 2 == 0 {
                wrap_u64(near + (i / 2 + 1) * BLOCK_PROBE_STEP)
            } else {
                wrap_u64(near - (i / 2 + 1) * BLOCK_PROBE_STEP)
            },
    )
}

/// Where the block placement candidates lie (addresses modulo 2^64): the first
/// is one step above the anchor; each odd candidate mirrors the even one before
/// it around the anchor; each even (odd) candidate lies one step above (below)
/// the one two places before; and all of them lie less than
/// `BLOCK_PROBE_MAX_OFFSET` away from the anchor, in their own direction.
pub proof fn lemma_block_candidates_geometry(near: u64)
    ensures
        ({
            let c = block_candidates_spec(near);
            &&& c.len() == 2 * (BLOCK_PROBE_MAX_OFFSET / BLOCK_PROBE_STEP - 1)
            &&& c[0] == wrap_u64(near + BLOCK_PROBE_STEP)
            &&& forall|i: int|
                0 <= i < c.len() - 1 && i % 2 == 0 ==> wrap_u64(#[trigger] c[i] + c[i + 1])
                    == wrap_u64(2 * near)
            &&& forall|i: int|
                0 <= i < c.len() - 2 && i % 2 == 0 ==> wrap_u64(c[i + 2] - #[trigger] c[i])
                    == BLOCK_PROBE_STEP
            &&& forall|i: int|
                0 <= i < c.len() - 2 && i % 2 == 1 ==> wrap_u64(#[trigger] c[i] - c[i + 2])
                    == BLOCK_PROBE_STEP
            &&& forall|i: int|
                0 <= i < c.len() && i % 2 == 0 ==> BLOCK_PROBE_STEP <= wrap_u64(#[trigger] c[i] - near)
                    < BLOCK_PROBE_MAX_OFFSET
            &&& forall|i: int|
                0 <= i < c.len() && i % 2 == 1 ==> BLOCK_PROBE_STEP <= wrap_u64(near - #[trigger] c[i])
                    < BLOCK_PROBE_MAX_OFFSET
        }),
{
    let c = block_candidates_spec(near);
    assert forall|i: int|
        0 <= i < c.len() - 1 && i % 2 == 0 implies wrap_u64(#[trigger] c[i] + c[i + 1])
        == wrap_u64(2 * near) by {
        lemma_candidate_pair(near, i);
    }
    assert forall|i: int|
        0 <= i < c.len() - 2 && i % 2 == 0 implies wrap_u64(c[i + 2] - #[trigger] c[i])
        == BLOCK_PROBE_STEP by {
        lemma_candidate_next(near, i);
    }
    assert forall|i: int|
        0 <= i < c.len() - 2 && i % 2 == 1 implies wrap_u64(#[trigger] c[i] - c[i + 2])
        == BLOCK_PROBE_STEP by {
        lemma_candidate_next(near, i);
    }
    assert forall|i: int|
        0 <= i < c.len() && i % 2 == 0 implies BLOCK_PROBE_STEP <= wrap_u64(#[trigger] c[i] - near)
        < BLOCK_PROBE_MAX_OFFSET by {
        lemma_candidate_distance(near, i);
    }
    assert forall|i: int|
        0 <= i < c.len() && i % 2 == 1 implies BLOCK_PROBE_STEP <= wrap_u64(near - #[trigger] c[i])
        < BLOCK_PROBE_MAX_OFFSET by {
        lemma_candidate_distance(near, i);
    }
}

proof fn lemma_wrap_value(x: int)
    ensures
        wrap_u64(x) as int == x % 0x1_0000_0000_0000_0000,
{
}

/// Candidate `i` is the anchor moved by `(i / 2 + 1)` steps, up for even `i`
/// and down for odd `i`, modulo 2^64.
proof fn lemma_candidate_value(near: u64, i: int)
    requires
        0 <= i < 254,
    ensures
        BLOCK_PROBE_STEP <= (i / 2 + 1) * BLOCK_PROBE_STEP < BLOCK_PROBE_MAX_OFFSET,
        i % 2 == 0 ==> block_candidates_spec(near)[i] as int == (near + (i / 2 + 1)
            * BLOCK_PROBE_STEP) % 0x1_0000_0000_0000_0000,
        i % 2 == 1 ==> block_candidates_spec(near)[i] as int == (near - (i / 2 + 1)
            * BLOCK_PROBE_STEP) % 0x1_0000_0000_0000_0000,
{
    let q = i / 2 + 1;
    assert(1 <= q <= 127);
    assert(0x100000 <= q * 0x100000 <= 127 * 0x100000) by (nonlinear_arith)
        requires
            1 <= q <= 127,
    ;
    lemma_wrap_value(near + q * BLOCK_PROBE_STEP);
    lemma_wrap_value(near - q * BLOCK_PROBE_STEP);
}

proof fn lemma_candidate_pair(near: u64, i: int)
    requires
        0 <= i < 253,
        i % 2 == 0,
    ensures
        wrap_u64(block_candidates_spec(near)[i] + block_candidates_spec(near)[i + 1]) == wrap_u64(
            2 * near,
        ),
{
    let m: int = 0x1_0000_0000_0000_0000;
    let o = (i / 2 + 1) * BLOCK_PROBE_STEP;
    assert((i + 1) / 2 == i / 2);
    assert((i + 1) % 2 == 1);
    lemma_candidate_value(near, i);
    lemma_candidate_value(near, i + 1);
    lemma_add_mod_noop(near + o, near - o, m);
    lemma_wrap_value(block_candidates_spec(near)[i] + block_candidates_spec(near)[i + 1]);
    lemma_wrap_value(2 * near);
}

proof fn lemma_candidate_next(near: u64, i: int)
    requires
        0 <= i < 252,
    ensures
        i % 2 == 0 ==> wrap_u64(block_candidates_spec(near)[i + 2] - block_candidates_spec(near)[i])
            == BLOCK_PROBE_STEP,
        i % 2 == 1 ==> wrap_u64(block_candidates_spec(near)[i] - block_candidates_spec(near)[i + 2])
            == BLOCK_PROBE_STEP,
{
    let m: int = 0x1_0000_0000_0000_0000;
    let st = BLOCK_PROBE_STEP as int;
    let o = (i / 2 + 1) * st;
    assert((i + 2) / 2 == i / 2 + 1);
    assert((i + 2) % 2 == i % 2);
    assert(((i + 2) / 2 + 1) * st == o + st) by (nonlinear_arith)
        requires
            (i + 2) / 2 == i / 2 + 1,
            o == (i / 2 + 1) * st,
    ;
    lemma_candidate_value(near, i);
    lemma_candidate_value(near, i + 2);
    let c = block_candidates_spec(near);
    if i % 2 == 0 {
        lemma_sub_mod_noop(near + o + st, near + o, m);
        lemma_wrap_value(c[i + 2] - c[i]);
    } else {
        lemma_sub_mod_noop(near - o, near - o - st, m);
        lemma_wrap_value(c[i] - c[i + 2]);
    }
}

proof fn lemma_candidate_distance(near: u64, i: int)
    requires
        0 <= i < 254,
    ensures
        i % 2 == 0 ==> BLOCK_PROBE_STEP <= wrap_u64(block_candidates_spec(near)[i] - near)
            < BLOCK_PROBE_MAX_OFFSET,
        i % 2 == 1 ==> BLOCK_PROBE_STEP <= wrap_u64(near - block_candidates_spec(near)[i])
            < BLOCK_PROBE_MAX_OFFSET,
{
    let m: int = 0x1_0000_0000_0000_0000;
    let o = (i / 2 + 1) * BLOCK_PROBE_STEP;
    lemma_candidate_value(near, i);
    let c = block_candidates_spec(near);
    assert(near as int % m == near as int);
    if i % 2 == 0 {
        lemma_sub_mod_noop(near + o, near as int, m);
        lemma_wrap_value(c[i] - near);
        assert(o % m == o);
    } else {
        lemma_sub_mod_noop(near as int, near - o, m);
        lemma_wrap_value(near - c[i]);
        assert(o % m == o);
    }
}

/// The block placement candidates around `near`.
pub fn block_candidates(near: u64) -> (c: Vec<u64>)
    ensures
        c@ == block_candidates_spec(near),
{
    let mut c: Vec<u64> = Vec::new();
    let mut k: u64 = 1;
    while k < 128
        invariant
            1 <= k <= 128,
            c@.len() == 2 * (k - 1),
            forall|i: int| 0 <= i < c@.len() ==> #[trigger] c@[i] == block_candidates_spec(near)[i],
        decreases 128 - k,
    {
        let offset: u64 = k * BLOCK_PROBE_STEP;
        let up: u64 = ((near as u128 + offset as u128) % 0x1_0000_0000_0000_0000u128) as u64;
        let down: u64 = if near >= offset {
            near - offset
        } else {
            (near as u128 + 0x1_0000_0000_0000_0000u128 - offset as u128) as u64
        };
        proof {
            let i = 2 * (k - 1);
            assert(i / 2 + 1 == k);
            assert((i + 1) / 2 + 1 == k);
            assert(i % 2 == 0);
            assert((i + 1) % 2 == 1);
        }
        c.push(up);
        c.push(down);
        k = k + 1;
    }
    c
}

/// The `k`-th address tried by a near allocation around `near`: for offsets of
/// 64 KiB, 128 KiB, ... below `REL32_RANGE`, first the address above, then the
/// one below (saturating at the ends of the address space); `None` after the last.
pub open spec fn alloc_probe_spec(near: u64, k: nat) -> Option<u64> {
    let offset = (k / 2 + 1) * ALLOC_PROBE_STEP;
    if offset >= REL32_RANGE {
        None
    } else if k % 2 == 0 {
        Some(if near + offset > u64::MAX { u64::MAX } else { (near + offset) as u64 })
    } else {
        Some(if near < offset { 0u64 } else { (near - offset) as u64 })
    }
}

/// The `k`-th candidate address of a near allocation (see `alloc_probe_spec`).
pub fn alloc_probe(near: u64, k: u64) -> (p: Option<u64>)
    ensures
        p == alloc_probe_spec(near, k as nat),
{
    let step_index: u64 = k / 2 + 1;
    if step_index >= REL32_RANGE / ALLOC_PROBE_STEP + 1 {
        return None;
    }
    let offset: u64 = step_index * ALLOC_PROBE_STEP;
    if offset >= REL32_RANGE {
        return None;
    }
    let (up, down) = probe_addresses(near, offset);
    if k % 2 == 0 {
        Some(up)
    } else {
        Some(down)
    }
}

/// What the near-allocation search does with its `k`-th probe.
pub enum NearProbe {
    /// Ask the allocator for a region at this address.
    Try(u64),
    /// The address is below the user range: go on with the next probe.
    Skip,
    /// Every probe was tried: fall back to an allocation anywhere.
    Fallback,
}

/// What the search does with a region that the allocator returned.
pub enum NearVerdict {
    /// Within rel32 reach of the anchor: keep it.
    Accept,
    /// Out of reach: release it and go on with the next probe.
    Release,
}

/// Number of probes of a near allocation: two for each 64 KiB offset below
/// `REL32_RANGE`.
pub const ALLOC_PROBE_COUNT: u64 = 65534;

/// The probes exist exactly for `k < ALLOC_PROBE_COUNT`, so the fallback comes
/// only after the last one.
pub proof fn lemma_alloc_probes_end(near: u64, k: nat)
    ensures
        alloc_probe_spec(near, k) is Some <==> k < ALLOC_PROBE_COUNT,
{
    let q = k / 2 + 1;
    if k < ALLOC_PROBE_COUNT {
        assert(q <= 32767);
        assert(q * ALLOC_PROBE_STEP <= 32767 * 0x10000) by (nonlinear_arith)
            requires
                q <= 32767,
                ALLOC_PROBE_STEP == 0x10000,
        ;
    } else {
        assert(q >= 32768);
        assert(q * ALLOC_PROBE_STEP >= 32768 * 0x10000) by (nonlinear_arith)
            requires
                q >= 32768,
                ALLOC_PROBE_STEP == 0x10000,
        ;
    }
}

proof fn lemma_probe_offset_step(k: nat)
    ensures
        ((k + 2) / 2 + 1) * ALLOC_PROBE_STEP == (k / 2 + 1) * ALLOC_PROBE_STEP + ALLOC_PROBE_STEP,
        ((k + 2) / 2 + 1) * BLOCK_PROBE_STEP == (k / 2 + 1) * BLOCK_PROBE_STEP + BLOCK_PROBE_STEP,
        (k / 2 + 1) * ALLOC_PROBE_STEP >= ALLOC_PROBE_STEP,
        (k / 2 + 1) * BLOCK_PROBE_STEP >= BLOCK_PROBE_STEP,
{
    assert((k + 2) / 2 == k / 2 + 1);
    let q = k / 2 + 1;
    assert((q + 1) * ALLOC_PROBE_STEP == q * ALLOC_PROBE_STEP + ALLOC_PROBE_STEP) by (nonlinear_arith);
    assert((q + 1) * BLOCK_PROBE_STEP == q * BLOCK_PROBE_STEP + BLOCK_PROBE_STEP) by (nonlinear_arith);
    assert(q * ALLOC_PROBE_STEP >= ALLOC_PROBE_STEP) by (nonlinear_arith)
        requires
            q >= 1,
    ;
    assert(q * BLOCK_PROBE_STEP >= BLOCK_PROBE_STEP) by (nonlinear_arith)
        requires
            q >= 1,
    ;
}

/// Where the near-allocation probes lie: the first is one step above the anchor;
/// even probes lie at or above it and odd ones at or below it, each odd probe at
/// the same distance as the even one before it; each pair lies one step further
/// out than the pair before; and every probe stays strictly within rel32 reach.
pub proof fn lemma_alloc_probe_geometry(near: u64, k: nat)
    ensures
        near + ALLOC_PROBE_STEP <= u64::MAX ==> alloc_probe_spec(near, 0) == Some(
            (near + ALLOC_PROBE_STEP) as u64,
        ),
        alloc_probe_spec(near, k) matches Some(a) ==> (k % 2 == 0 ==> a >= near) && (k % 2 == 1
            ==> a <= near) && -(REL32_RANGE as int) < a - near < REL32_RANGE,
        k % 2 == 0 ==> (alloc_probe_spec(near, k) matches Some(a) ==> (alloc_probe_spec(near, k + 1) matches Some(b)
            && (a < u64::MAX && b > 0 ==> a - near == near - b))),
        ({
            let a = alloc_probe_spec(near, k).unwrap();
            let a2 = alloc_probe_spec(near, k + 2).unwrap();
            alloc_probe_spec(near, k) is Some && alloc_probe_spec(near, k + 2) is Some && 0 < a
                < u64::MAX && 0 < a2 < u64::MAX ==> (k % 2 == 0 ==> a2 - a == ALLOC_PROBE_STEP) && (k
                % 2 == 1 ==> a - a2 == ALLOC_PROBE_STEP)
        }),
{
    lemma_probe_offset_step(k);
    assert((k + 1) / 2 == k / 2 || k % 2 == 1);
    if k % 2 == 0 {
        assert((k + 1) / 2 == k / 2);
    }
    assert((k + 2) % 2 == k % 2);
}

/// The search's step at probe `k` around `near`: try the probe address, skip it
/// when it lies below the user range, or fall back after the last probe.
pub fn near_probe(near: u64, k: u64) -> (step: NearProbe)
    ensures
        step == (match alloc_probe_spec(near, k as nat) {
            None => NearProbe::Fallback,
            Some(a) => if a >= MIN_USER_ADDRESS {
                NearProbe::Try(a)
            } else {
                NearProbe::Skip
            },
        }),
{
    match alloc_probe(near, k) {
        None => NearProbe::Fallback,
        Some(a) => if is_user_address(a) {
            NearProbe::Try(a)
        } else {
            NearProbe::Skip
        },
    }
}

/// The search's verdict on a region allocated at `got`: accepted only within
/// rel32 reach of `near`, released otherwise.
pub fn near_verdict(near: u64, got: u64) -> (v: NearVerdict)
    ensures
        v is Accept <==> (-(REL32_RANGE as int) < signed64(got) - signed64(near) < REL32_RANGE),
        v is Release <==> !(-(REL32_RANGE as int) < signed64(got) - signed64(near) < REL32_RANGE),
{
    if within_rel32(near, got) {
        NearVerdict::Accept
    } else {
        NearVerdict::Release
    }
}

/// ASCII lower case of a byte (other bytes unchanged).
pub open spec fn ascii_lower(b: u8) -> u8 {
    if 0x41 <= b <= 0x5A {
        (b + 0x20) as u8
    } else {
        b
    }
}

/// Whether two byte strings are equal up to ASCII case (what
/// `str::eq_ignore_ascii_case` decides).
pub open spec fn eq_ignore_ascii_case_spec(a: Seq<u8>, b: Seq<u8>) -> bool {
    a.len() == b.len() && forall|i: int| 0 <= i < a.len() ==> ascii_lower(#[trigger] a[i])
        == ascii_lower(b[i])
}

fn lower_byte(b: u8) -> (r: u8)
    ensures
        r == ascii_lower(b),
{
    if 0x41 <= b && b <= 0x5A {
        b + 0x20
    } else {
        b
    }
}

/// Whether a process or module name matches the one looked for, ignoring ASCII
/// case (`CrimsonDesert.exe` matches `crimsondesert.EXE`).
pub fn names_match(name: &str, wanted: &str) -> (m: bool)
    ensures
        m == eq_ignore_ascii_case_spec(name.spec_bytes(), wanted.spec_bytes()),
{
    let a = name.as_bytes();
    let b = wanted.as_bytes();
    if a.len() != b.len() {
        return false;
    }
    let mut i: usize = 0;
    while i < a.len()
        invariant
            a@ == name.spec_bytes(),
            b@ == wanted.spec_bytes(),
            a@.len() == b@.len(),
            i <= a@.len(),
            forall|j: int| 0 <= j < i ==> ascii_lower(#[trigger] a@[j]) == ascii_lower(b@[j]),
        decreases a@.len() - i,
    {
        if lower_byte(a[i]) != lower_byte(b[i]) {
            return false;
        }
        i = i + 1;
    }
    true
}

} // verus!
