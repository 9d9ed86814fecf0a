//! Seeded pseudo-random generators for the neural-network example (their
//! integer outputs; turning them into floats is left to the caller) and
//! the command-line choice between them.

use vstd::prelude::*;
use crate::text::{ascii_lower_seq, ascii_lowercase, chars_eq_str, chars_of, chars_start_with, starts_with, string_from_chars};

verus! {

/// The SplitMix64 increment.
pub open spec fn golden() -> u64 {
    0x9E37_79B9_7F4A_7C15u64
}

/// The SplitMix64 output function applied to a state.
pub open spec fn splitmix_mix(s: u64) -> u64 {
    let z1 = (s ^ (s >> 30u64)).wrapping_mul(0xBF58_476D_1CE4_E5B9u64);
    let z2 = (z1 ^ (z1 >> 27u64)).wrapping_mul(0x94D0_49BB_1331_11EBu64);
    z2 ^ (z2 >> 31u64)
}

fn mix(s: u64) -> (r: u64)
    ensures
        r == splitmix_mix(s),
{
    let z1 = (s ^ (s >> 30u64)).wrapping_mul(0xBF58_476D_1CE4_E5B9u64);
    let z2 = (z1 ^ (z1 >> 27u64)).wrapping_mul(0x94D0_49BB_1331_11EBu64);
    z2 ^ (z2 >> 31u64)
}

/// Mulberry64-style generator: a SplitMix64 sequence (fast, not cryptographic).
pub struct Mulberry64 {
    state: u64,
}

impl View for Mulberry64 {
    type V = u64;

    closed spec fn view(&self) -> u64 {
        self.state
    }
}

impl Mulberry64 {
    pub fn new(seed: u64) -> (r: Self)
        ensures
            r@ == seed,
    {
        Mulberry64 { state: seed }
    }

    /// Advances the state by the SplitMix64 increment and returns the
    /// mixed new state; every draw of the generator starts from this value.
    pub fn next_raw(&mut self) -> (r: u64)
        ensures
            final(self)@ == old(self)@.wrapping_add(golden()),
            r == splitmix_mix(final(self)@),
    {
        self.state = self.state.wrapping_add(0x9E37_79B9_7F4A_7C15u64);
        mix(self.state)
    }
}

/// Rotation of a 64-bit word to the right by `r < 64` places.
pub open spec fn rotr64(x: u64, r: u32) -> u64 {
    if r == 0 {
        x
    } else {
        (x >> r) | (x << (64 - r) as u32)
    }
}

fn rotate_right64(x: u64, r: u32) -> (v: u64)
    requires
        r < 64,
    ensures
        v == rotr64(x, r),
{
    if r == 0 {
        x
    } else {
        (x >> r) | (x << (64 - r))
    }
}

/// The PCG64 multiplier.
pub open spec fn pcg_mul() -> u128 {
    0x2360_ED05_1FC6_5DA4_4385_DF64_9FCC_F645u128
}

/// The state a seed gives.
pub open spec fn pcg_seed_state(seed: u64) -> u128 {
    (seed as u128) ^ 0xDA3E_39CB_94B9_5BDB_CAF9_1234_5678_9ABCu128
}

/// The (odd) increment a seed gives.
pub open spec fn pcg_seed_inc(seed: u64) -> u128 {
    ((seed as u128) << 1u128) | 1u128
}

/// The XSL-RR output of a state.
pub open spec fn pcg_output(s: u128) -> u64 {
    let xorshifted = (((s >> 64u128) as u64) ^ (s as u64)) >> 5u64;
    rotr64(xorshifted, (s >> 122u128) as u32)
}

/// A PCG64-like generator: 128-bit LCG with an XSL-RR output (seeded, stable).
pub struct Pcg64 {
    state: u128,
    inc: u128,
}

impl View for Pcg64 {
    type V = (u128, u128);

    closed spec fn view(&self) -> (u128, u128) {
        (self.state, self.inc)
    }
}

impl Pcg64 {
    pub fn new(seed: u64) -> (r: Self)
        ensures
            r@ == (pcg_seed_state(seed), pcg_seed_inc(seed)),
    {
        let s = (seed as u128) ^ 0xDA3E_39CB_94B9_5BDB_CAF9_1234_5678_9ABCu128;
        let inc = ((seed as u128) << 1u128) | 1u128;
        Pcg64 { state: s, inc }
    }

    /// One LCG step, then the XSL-RR output of the new state.
    pub fn next_u64(&mut self) -> (r: u64)
        ensures
            final(self)@.1 == old(self)@.1,
            final(self)@.0 == old(self)@.0.wrapping_mul(pcg_mul()).wrapping_add(old(self)@.1),
            r == pcg_output(final(self)@.0),
    {
        self.state = self.state.wrapping_mul(0x2360_ED05_1FC6_5DA4_4385_DF64_9FCC_F645u128).wrapping_add(
            self.inc,
        );
        let s = self.state;
        let xorshifted = (((s >> 64u128) as u64) ^ (s as u64)) >> 5u64;
        let rot = (s >> 122u128) as u32;
        assert((s >> 122u128) < 64) by (bit_vector);
        rotate_right64(xorshifted, rot)
    }
}

/// Rotation of a 32-bit word to the left by `0 < n < 32` places.
pub open spec fn rotl32(x: u32, n: u32) -> u32 {
    (x << n) | (x >> (32 - n) as u32)
}

fn rotate_left32(x: u32, n: u32) -> (r: u32)
    requires
        0 < n < 32,
    ensures
        r == rotl32(x, n),
{
    (x << n) | (x >> (32 - n))
}

/// The ChaCha quarter round on words `a`, `b`, `c`, `d` of the block.
pub open spec fn quarter_spec(x: Seq<u32>, a: int, b: int, c: int, d: int) -> Seq<u32> {
    let a1 = x[a].wrapping_add(x[b]);
    let d1 = rotl32(x[d] ^ a1, 16);
    let c1 = x[c].wrapping_add(d1);
    let b1 = rotl32(x[b] ^ c1, 12);
    let a2 = a1.wrapping_add(b1);
    let d2 = rotl32(d1 ^ a2, 8);
    let c2 = c1.wrapping_add(d2);
    let b2 = rotl32(b1 ^ c2, 7);
    x.update(a, a2).update(b, b2).update(c, c2).update(d, d2)
}

/// A column round followed by a diagonal round.
pub open spec fn double_round(x: Seq<u32>) -> Seq<u32> {
    let x1 = quarter_spec(x, 0, 4, 8, 12);
    let x2 = quarter_spec(x1, 1, 5, 9, 13);
    let x3 = quarter_spec(x2, 2, 6, 10, 14);
    let x4 = quarter_spec(x3, 3, 7, 11, 15);
    let x5 = quarter_spec(x4, 0, 5, 10, 15);
    let x6 = quarter_spec(x5, 1, 6, 11, 12);
    let x7 = quarter_spec(x6, 2, 7, 8, 13);
    quarter_spec(x7, 3, 4, 9, 14)
}

pub open spec fn rounds(x: Seq<u32>, n: nat) -> Seq<u32>
    decreases n,
{
    if n == 0 {
        x
    } else {
        double_round(rounds(x, (n - 1) as nat))
    }
}

/// The output block of a state: eight double rounds added word by word
/// to the state.
pub open spec fn block(st: Seq<u32>) -> Seq<u32> {
    Seq::new(16, |i: int| rounds(st, 8)[i].wrapping_add(st[i]))
}

/// The state with its 64-bit block counter (words 12 and 13) advanced.
pub open spec fn bump_counter(st: Seq<u32>) -> Seq<u32> {
    let c = st[12].wrapping_add(1);
    let st1 = st.update(12, c);
    if c == 0 {
        st1.update(13, st[13].wrapping_add(1))
    } else {
        st1
    }
}

/// What the generator holds: its state, the position of the next output
/// word, and the current output block.
pub struct ChaChaV {
    pub state: Seq<u32>,
    pub idx: nat,
    pub buf: Seq<u32>,
}

/// A fresh block from the state and an advanced counter.
pub open spec fn refilled(v: ChaChaV) -> ChaChaV {
    ChaChaV { state: bump_counter(v.state), idx: 0, buf: block(v.state) }
}

/// The Mulberry64 state after `n` draws from `seed`.
pub open spec fn mulberry_state(seed: u64, n: nat) -> u64
    decreases n,
{
    if n == 0 {
        seed
    } else {
        mulberry_state(seed, (n - 1) as nat).wrapping_add(golden())
    }
}

/// Key word `i`: a Mulberry64 draw from the seed mapped onto `[0, u32::MAX]`
/// the way a float draw in `[0, f32::MAX)` converts back to `u32` (zero
/// when the draw's top 53 bits are zero, all ones otherwise), mixed with
/// a multiple of the golden ratio.
pub open spec fn key_word(seed: u64, i: nat) -> u32 {
    let z = splitmix_mix(mulberry_state(seed, i + 1));
    (if (z >> 11u64) == 0 { 0u32 } else { 0xFFFF_FFFFu32 }) ^ 0x9E37_79B9u32.wrapping_mul((i + 1) as u32)
}

/// The initial state: the ChaCha constants, eight key words, a zero
/// counter and a nonce taken from the seed.
pub open spec fn chacha_init(seed: u64) -> Seq<u32> {
    seq![
        0x6170_7865u32,
        0x3320_646eu32,
        0x7962_2d32u32,
        0x6b20_6574u32,
        key_word(seed, 0),
        key_word(seed, 1),
        key_word(seed, 2),
        key_word(seed, 3),
        key_word(seed, 4),
        key_word(seed, 5),
        key_word(seed, 6),
        key_word(seed, 7),
        0u32,
        0u32,
        (seed as u32) ^ 0xDEAD_BEEFu32,
        ((seed >> 32u64) as u32) ^ 0xBADC_0FFEu32,
    ]
}

/// A ChaCha8-like generator (eight double rounds); seeded, not cryptographic.
pub struct ChaCha8Rng {
    state: [u32; 16],
    idx: usize,
    buf: [u32; 16],
}

impl View for ChaCha8Rng {
    type V = ChaChaV;

    closed spec fn view(&self) -> ChaChaV {
        ChaChaV { state: self.state@, idx: self.idx as nat, buf: self.buf@ }
    }
}

impl ChaCha8Rng {
    /// The state holds sixteen words and the position lies in the block.
    pub open spec fn wf(&self) -> bool {
        &&& self@.state.len() == 16
        &&& self@.buf.len() == 16
        &&& self@.idx <= 16
    }

    /// Every generator keeps its position inside the block.
    #[verifier::type_invariant]
    spec fn position_ok(&self) -> bool {
        self.wf()
    }

    /// A generator seeded from `seed`, with its first block computed.
    pub fn new(seed: u64) -> (r: Self)
        ensures
            r.wf(),
            r@ == refilled(ChaChaV { state: chacha_init(seed), idx: 16, buf: Seq::new(16, |i: int| 0u32) }),
    {
        let mut st = [0u32; 16];
        st[0] = 0x6170_7865u32;
        st[1] = 0x3320_646eu32;
        st[2] = 0x7962_2d32u32;
        st[3] = 0x6b20_6574u32;
        let mut sm = Mulberry64::new(seed);
        let mut i: usize = 0;
        while i < 8
            invariant
                i <= 8,
                st@.len() == 16,
                sm@ == mulberry_state(seed, i as nat),
                st@[0] == 0x6170_7865u32,
                st@[1] == 0x3320_646eu32,
                st@[2] == 0x7962_2d32u32,
                st@[3] == 0x6b20_6574u32,
                forall|k: int| 0 <= k < i ==> st@[4 + k] == #[trigger] key_word(seed, k as nat),
            decreases 8 - i,
        {
            let z = sm.next_raw();
            let hi: u32 = if (z >> 11u64) == 0 { 0u32 } else { 0xFFFF_FFFFu32 };
            st[4 + i] = hi ^ 0x9E37_79B9u32.wrapping_mul(i as u32 + 1);
            i += 1;
        }
        st[12] = 0;
        st[13] = 0;
        st[14] = (seed as u32) ^ 0xDEAD_BEEFu32;
        st[15] = ((seed >> 32u64) as u32) ^ 0xBADC_0FFEu32;
        assert(st@ =~= chacha_init(seed));
        let mut rng = ChaCha8Rng { state: st, idx: 16, buf: [0u32; 16] };
        assert(rng@.buf =~= Seq::new(16, |i: int| 0u32));
        rng.refill();
        rng
    }

    fn quarter(x: &mut [u32; 16], ai: usize, bi: usize, ci: usize, di: usize)
        requires
            ai < 16,
            bi < 16,
            ci < 16,
            di < 16,
            ai != bi && ai != ci && ai != di && bi != ci && bi != di && ci != di,
        ensures
            final(x)@ == quarter_spec(old(x)@, ai as int, bi as int, ci as int, di as int),
    {
        let mut a = x[ai];
        let mut b = x[bi];
        let mut c = x[ci];
        let mut d = x[di];
        a = a.wrapping_add(b);
        d ^= a;
        d = rotate_left32(d, 16);
        c = c.wrapping_add(d);
        b ^= c;
        b = rotate_left32(b, 12);
        a = a.wrapping_add(b);
        d ^= a;
        d = rotate_left32(d, 8);
        c = c.wrapping_add(d);
        b ^= c;
        b = rotate_left32(b, 7);
        x[ai] = a;
        x[bi] = b;
        x[ci] = c;
        x[di] = d;
    }

    fn refill(&mut self)
        requires
            old(self).wf(),
        ensures
            final(self).wf(),
            final(self)@ == refilled(old(self)@),
    {
        let mut x = self.state;
        let mut r: usize = 0;
        while r < 8
            invariant
                r <= 8,
                x@ == rounds(self.state@, r as nat),
                x@.len() == 16,
            decreases 8 - r,
        {
            Self::quarter(&mut x, 0, 4, 8, 12);
            Self::quarter(&mut x, 1, 5, 9, 13);
            Self::quarter(&mut x, 2, 6, 10, 14);
            Self::quarter(&mut x, 3, 7, 11, 15);
            Self::quarter(&mut x, 0, 5, 10, 15);
            Self::quarter(&mut x, 1, 6, 11, 12);
            Self::quarter(&mut x, 2, 7, 8, 13);
            Self::quarter(&mut x, 3, 4, 9, 14);
            r += 1;
        }
        let ghost st0 = self.state@;
        let mut i: usize = 0;
        while i < 16
            invariant
                i <= 16,
                x@ == rounds(st0, 8),
                self.state@ == st0,
                self.buf@.len() == 16,
                self.idx == old(self).idx,
                self.idx <= 16,
                st0 == old(self)@.state,
                forall|k: int| 0 <= k < i ==> self.buf@[k] == block(st0)[k],
            decreases 16 - i,
        {
            self.buf[i] = x[i].wrapping_add(self.state[i]);
            i += 1;
        }
        self.state[12] = self.state[12].wrapping_add(1);
        if self.state[12] == 0 {
            self.state[13] = self.state[13].wrapping_add(1);
        }
        self.idx = 0;
        assert(self.buf@ =~= block(st0));
        assert(self.state@ =~= bump_counter(st0));
    }

    /// The next output word; a new block is computed when the current one
    /// is used up.
    pub fn next_u32(&mut self) -> (r: u32)
        ensures
            final(self).wf(),
            ({
                let v = if old(self)@.idx >= 16 { refilled(old(self)@) } else { old(self)@ };
                r == v.buf[v.idx as int] && final(self)@ == ChaChaV { idx: v.idx + 1, ..v }
            }),
    {
        proof {
            use_type_invariant(&*self);
        }
        if self.idx >= 16 {
            self.refill();
        }
        let v = self.buf[self.idx];
        self.idx += 1;
        v
    }
}

/// Which generator the example uses; the seed carried here is not used
/// (the seed is chosen separately).
#[derive(Debug, Clone, Copy, PartialEq, Eq)]
pub enum RngKind {
    Default,
    Mulberry64(u64),
    Pcg64(u64),
    ChaCha8(u64),
}

/// The generator a name selects, in any case: `default`, `mulberry64`,
/// `pcg64`, `chacha8` or `chacha8rng`.
pub open spec fn spec_rng_kind(s: Seq<char>) -> Option<RngKind> {
    let l = ascii_lower_seq(s);
    if l == "default"@ {
        Some(RngKind::Default)
    } else if l == "mulberry64"@ {
        Some(RngKind::Mulberry64(0))
    } else if l == "pcg64"@ {
        Some(RngKind::Pcg64(0))
    } else if l == "chacha8"@ || l == "chacha8rng"@ {
        Some(RngKind::ChaCha8(0))
    } else {
        None
    }
}

fn rng_kind_of(cs: &[char]) -> (r: Option<RngKind>)
    ensures
        r == spec_rng_kind(cs@),
{
    let l = ascii_lowercase(cs);
    let ls = l.as_slice();
    if chars_eq_str(ls, "default") {
        Some(RngKind::Default)
    } else if chars_eq_str(ls, "mulberry64") {
        Some(RngKind::Mulberry64(0))
    } else if chars_eq_str(ls, "pcg64") {
        Some(RngKind::Pcg64(0))
    } else if chars_eq_str(ls, "chacha8") || chars_eq_str(ls, "chacha8rng") {
        Some(RngKind::ChaCha8(0))
    } else {
        None
    }
}

/// Parses a generator name (see [`spec_rng_kind`]).
pub fn rng_kind_from_str(s: &str) -> (r: Result<RngKind, ()>)
    ensures
        match r {
            Ok(k) => spec_rng_kind(s@) == Some(k),
            Err(_) => spec_rng_kind(s@).is_none(),
        },
{
    let cs = chars_of(s);
    match rng_kind_of(cs.as_slice()) {
        Some(k) => Ok(k),
        None => Err(()),
    }
}

impl core::str::FromStr for RngKind {
    type Err = ();

    fn from_str(s: &str) -> (r: Result<RngKind, ()>)
        ensures
            match r {
                Ok(k) => spec_rng_kind(s@) == Some(k),
                Err(_) => spec_rng_kind(s@).is_none(),
            },
    {
        rng_kind_from_str(s)
    }
}

pub open spec fn digit_value(c: char) -> nat {
    (c as nat - '0' as nat) as nat
}

/// The number a string of decimal digits denotes.
pub open spec fn digits_value(s: Seq<char>) -> nat
    decreases s.len(),
{
    if s.len() == 0 {
        0
    } else {
        digits_value(s.drop_last()) * 10 + digit_value(s.last())
    }
}

/// `str::parse::<u64>`: an optional `+`, then at least one decimal digit,
/// with a value that fits in 64 bits.
pub open spec fn spec_parse_u64(s: Seq<char>) -> Option<u64> {
    let t = if s.len() > 0 && s[0] == '+' { s.drop_first() } else { s };
    if t.len() == 0 || !crate::bpmn::directive::all_digits(t) || digits_value(t) > u64::MAX {
        None
    } else {
        Some(digits_value(t) as u64)
    }
}

proof fn lemma_digits_value_grows(s: Seq<char>, n: int)
    requires
        0 <= n <= s.len(),
        crate::bpmn::directive::all_digits(s),
    ensures
        digits_value(s.subrange(0, n)) <= digits_value(s),
    decreases s.len() - n,
{
    if n < s.len() {
        lemma_digits_value_grows(s, n + 1);
        assert(s.subrange(0, n + 1).drop_last() =~= s.subrange(0, n));
    } else {
        assert(s.subrange(0, n) =~= s);
    }
}

/// Parses a decimal `u64` (see [`spec_parse_u64`]).
pub fn parse_u64(s: &[char]) -> (r: Option<u64>)
    ensures
        r == spec_parse_u64(s@),
{
    let n = s.len();
    let mut a: usize = 0;
    if n > 0 && s[0] == '+' {
        a = 1;
    }
    let ghost t = if s@.len() > 0 && s@[0] == '+' { s@.drop_first() } else { s@ };
    assert(t =~= s@.subrange(a as int, n as int));
    if a == n {
        return None;
    }
    let mut v: u64 = 0;
    let mut i = a;
    while i < n
        invariant
            a <= i <= n == s@.len(),
            t == s@.subrange(a as int, n as int),
            t == (if s@.len() > 0 && s@[0] == '+' { s@.drop_first() } else { s@ }),
            t.len() > 0,
            crate::bpmn::directive::all_digits(t.subrange(0, i - a)),
            v == digits_value(t.subrange(0, i - a)),
        decreases n - i,
    {
        let c = s[i];
        assert(t[i - a] == c);
        if !('0' <= c && c <= '9') {
            assert(!crate::bpmn::directive::is_ascii_digit(t[i - a]));
            return None;
        }
        let d = (c as u32 - '0' as u32) as u64;
        assert(t.subrange(0, i + 1 - a).drop_last() =~= t.subrange(0, i - a));
        let next = match v.checked_mul(10) {
            Some(m) => m.checked_add(d),
            None => None,
        };
        match next {
            Some(w) => {
                v = w;
            },
            None => {
                proof {
                    let p = t.subrange(0, i + 1 - a);
                    assert(digits_value(p) > u64::MAX);
                    if crate::bpmn::directive::all_digits(t) {
                        lemma_digits_value_grows(t, i + 1 - a);
                    }
                }
                return None;
            },
        }
        i += 1;
    }
    assert(t.subrange(0, n - a) =~= t);
    Some(v)
}

/// The default seed of the example.
pub open spec fn default_seed() -> u64 {
    0xDEAD_BEEF_F00D_BAAFu64
}

/// The generator and seed the arguments choose: the last `--rng=<name>`
/// with a known name and the last `--seed=<u64>` that parses win; the
/// default generator and seed otherwise.
pub open spec fn spec_rng_choice(args: Seq<Seq<char>>) -> (RngKind, u64)
    decreases args.len(),
{
    if args.len() == 0 {
        (RngKind::Default, default_seed())
    } else {
        let prev = spec_rng_choice(args.drop_last());
        let a = args.last();
        if starts_with(a, "--rng="@) {
            match spec_rng_kind(a.subrange(6, a.len() as int)) {
                Some(k) => (k, prev.1),
                None => prev,
            }
        } else if starts_with(a, "--seed="@) {
            match spec_parse_u64(a.subrange(7, a.len() as int)) {
                Some(v) => (prev.0, v),
                None => prev,
            }
        } else {
            prev
        }
    }
}

/// The generator and seed chosen by command-line arguments
/// (see [`spec_rng_choice`]); building the generator is left to the caller.
pub fn rng_choice_from_args(args: &[String]) -> (r: (RngKind, u64))
    ensures
        r == spec_rng_choice(args@.map_values(|a: String| a@)),
{
    let ghost av = args@.map_values(|a: String| a@);
    let mut kind = RngKind::Default;
    let mut seed: u64 = 0xDEAD_BEEF_F00D_BAAFu64;
    let mut i: usize = 0;
    while i < args.len()
        invariant
            i <= args@.len(),
            av == args@.map_values(|a: String| a@),
            (kind, seed) == spec_rng_choice(av.subrange(0, i as int)),
        decreases args@.len() - i,
    {
        let cs = chars_of(args[i].as_str());
        let n = cs.len();
        assert(av.subrange(0, i + 1).drop_last() =~= av.subrange(0, i as int));
        proof {
            reveal_strlit("--rng=");
            reveal_strlit("--seed=");
        }
        if chars_start_with(cs.as_slice(), "--rng=") {
            match rng_kind_of(&cs.as_slice()[6..n]) {
                Some(k) => {
                    kind = k;
                },
                None => {},
            }
        } else if chars_start_with(cs.as_slice(), "--seed=") {
            match parse_u64(&cs.as_slice()[7..n]) {
                Some(v) => {
                    seed = v;
                },
                None => {},
            }
        }
        i += 1;
    }
    assert(av.subrange(0, args@.len() as int) =~= av);
    (kind, seed)
}

/// The generator name the arguments give: the text of the last
/// `--rng=<name>`, lower-cased, or `default`.
pub open spec fn spec_rng_name(args: Seq<Seq<char>>) -> Seq<char>
    decreases args.len(),
{
    if args.len() == 0 {
        "default"@
    } else if starts_with(args.last(), "--rng="@) {
        ascii_lower_seq(args.last().subrange(6, args.last().len() as int))
    } else {
        spec_rng_name(args.drop_last())
    }
}

/// The generator name given on the command line (see [`spec_rng_name`]).
pub fn rng_name_from_args(args: &[String]) -> (r: String)
    ensures
        r@ == spec_rng_name(args@.map_values(|a: String| a@)),
{
    let ghost av = args@.map_values(|a: String| a@);
    let mut name = "default".to_owned();
    let mut i: usize = 0;
    while i < args.len()
        invariant
            i <= args@.len(),
            av == args@.map_values(|a: String| a@),
            name@ == spec_rng_name(av.subrange(0, i as int)),
        decreases args@.len() - i,
    {
        let cs = chars_of(args[i].as_str());
        let n = cs.len();
        assert(av.subrange(0, i + 1).drop_last() =~= av.subrange(0, i as int));
        assert(av.subrange(0, i + 1).last() == av[i as int]);
        proof {
            reveal_strlit("--rng=");
        }
        if chars_start_with(cs.as_slice(), "--rng=") {
            let l = ascii_lowercase(&cs.as_slice()[6..n]);
            name = string_from_chars(l.as_slice());
        }
        i += 1;
    }
    assert(av.subrange(0, args@.len() as int) =~= av);
    name
}

} // verus!
