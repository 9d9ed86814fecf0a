use rust_to_ts::rng::{
    parse_u64, rng_choice_from_args, rng_kind_from_str, rng_name_from_args, ChaCha8Rng, Mulberry64,
    Pcg64, RngKind,
};

fn splitmix(state: &mut u64) -> u64 {
    *state = state.wrapping_add(0x9E3779B97F4A7C15);
    let mut z = *state;
    z = (z ^ (z >> 30)).wrapping_mul(0xBF58476D1CE4E5B9);
    z = (z ^ (z >> 27)).wrapping_mul(0x94D049BB133111EB);
    z ^ (z >> 31)
}

#[test]
fn mulberry_follows_splitmix() {
    let mut m = Mulberry64::new(42);
    let mut s = 42u64;
    for _ in 0..10 {
        assert_eq!(m.next_raw(), splitmix(&mut s));
    }
    let mut z = Mulberry64::new(0);
    assert_eq!(z.next_raw(), 0xE220A8397B1DCDAF);
}

struct PcgReference {
    state: u128,
    inc: u128,
}

impl PcgReference {
    fn new(seed: u64) -> Self {
        PcgReference {
            state: (seed as u128) ^ 0xDA3E_39CB_94B9_5BDB_CAF9_1234_5678_9ABCu128,
            inc: ((seed as u128) << 1) | 1,
        }
    }
    fn next_u64(&mut self) -> u64 {
        self.state = self.state.wrapping_mul(0x2360_ED05_1FC6_5DA4_4385_DF64_9FCC_F645u128).wrapping_add(self.inc);
        let xorshifted = (((self.state >> 64) as u64) ^ (self.state as u64)) >> 5;
        xorshifted.rotate_right((self.state >> 122) as u32)
    }
}

#[test]
fn pcg_matches_reference() {
    for seed in [0u64, 1, 0xDEAD_BEEF_F00D_BAAF, u64::MAX] {
        let mut p = Pcg64::new(seed);
        let mut r = PcgReference::new(seed);
        for _ in 0..50 {
            assert_eq!(p.next_u64(), r.next_u64());
        }
    }
}

/// The generator as a float-keyed reference: key words come from a float
/// draw in `[0, f32::MAX)` converted back to `u32`.
struct ChaChaReference {
    state: [u32; 16],
    idx: usize,
    buf: [u32; 16],
}

impl ChaChaReference {
    fn new(seed: u64) -> Self {
        let mut st = [0u32; 16];
        st[0] = 0x6170_7865;
        st[1] = 0x3320_646e;
        st[2] = 0x7962_2d32;
        st[3] = 0x6b20_6574;
        let mut sm = seed;
        for i in 0..8 {
            let z = splitmix(&mut sm);
            let u = (z >> 11) as f64 / (1u64 << 53) as f64;
            let f = (0.0f64 + u * (f32::MAX as f64 - 0.0f64)) as f32;
            st[4 + i] = (f as u32) ^ (0x9E37_79B9u32.wrapping_mul(i as u32 + 1));
        }
        st[14] = (seed as u32) ^ 0xDEAD_BEEF;
        st[15] = ((seed >> 32) as u32) ^ 0xBADC_0FFE;
        let mut r = ChaChaReference { state: st, idx: 16, buf: [0; 16] };
        r.refill();
        r
    }
    fn quarter(x: &mut [u32; 16], a: usize, b: usize, c: usize, d: usize) {
        x[a] = x[a].wrapping_add(x[b]);
        x[d] = (x[d] ^ x[a]).rotate_left(16);
        x[c] = x[c].wrapping_add(x[d]);
        x[b] = (x[b] ^ x[c]).rotate_left(12);
        x[a] = x[a].wrapping_add(x[b]);
        x[d] = (x[d] ^ x[a]).rotate_left(8);
        x[c] = x[c].wrapping_add(x[d]);
        x[b] = (x[b] ^ x[c]).rotate_left(7);
    }
    fn refill(&mut self) {
        let mut x = self.state;
        for _ in 0..8 {
            Self::quarter(&mut x, 0, 4, 8, 12);
            Self::quarter(&mut x, 1, 5, 9, 13);
            Self::quarter(&mut x, 2, 6, 10, 14);
            Self::quarter(&mut x, 3, 7, 11, 15);
            Self::quarter(&mut x, 0, 5, 10, 15);
            Self::quarter(&mut x, 1, 6, 11, 12);
            Self::quarter(&mut x, 2, 7, 8, 13);
            Self::quarter(&mut x, 3, 4, 9, 14);
        }
        for i in 0..16 {
            self.buf[i] = x[i].wrapping_add(self.state[i]);
        }
        self.state[12] = self.state[12].wrapping_add(1);
        if self.state[12] == 0 {
            self.state[13] = self.state[13].wrapping_add(1);
        }
        self.idx = 0;
    }
    fn next_u32(&mut self) -> u32 {
        if self.idx >= 16 {
            self.refill();
        }
        let v = self.buf[self.idx];
        self.idx += 1;
        v
    }
}

#[test]
fn chacha_matches_float_keyed_reference() {
    for seed in [0u64, 7, 0xDEAD_BEEF_F00D_BAAF, u64::MAX] {
        let mut c = ChaCha8Rng::new(seed);
        let mut r = ChaChaReference::new(seed);
        for _ in 0..70 {
            assert_eq!(c.next_u32(), r.next_u32());
        }
    }
}

fn args(v: &[&str]) -> Vec<String> {
    v.iter().map(|s| s.to_string()).collect()
}

#[test]
fn generator_choice_from_arguments() {
    assert_eq!(rng_choice_from_args(&[]), (RngKind::Default, 0xDEAD_BEEF_F00D_BAAF));
    assert_eq!(
        rng_choice_from_args(&args(&["--rng=PCG64", "--seed=12", "--rng=bogus", "--seed=x"])),
        (RngKind::Pcg64(0), 12)
    );
    assert_eq!(rng_choice_from_args(&args(&["--rng=chacha8rng", "--seed=+5"])), (RngKind::ChaCha8(0), 5));
    assert_eq!(
        rng_choice_from_args(&args(&["--seed=18446744073709551616", "--rng=Mulberry64"])),
        (RngKind::Mulberry64(0), 0xDEAD_BEEF_F00D_BAAF)
    );
    assert_eq!(rng_name_from_args(&args(&["x", "--rng=ChaCha8", "--rng=PCG64"])), "pcg64");
    assert_eq!(rng_name_from_args(&args(&["--seed=1"])), "default");
    assert_eq!(rng_name_from_args(&args(&["--rng=Bogus"])), "bogus");
    assert_eq!(rng_kind_from_str("DEFAULT"), Ok(RngKind::Default));
    assert_eq!(rng_kind_from_str("chacha"), Err(()));
    assert_eq!("pcg64".parse::<RngKind>(), Ok(RngKind::Pcg64(0)));
}

#[test]
fn u64_parsing_matches_std() {
    for s in [
        "0", "+0", "-0", "+", "", "18446744073709551615", "18446744073709551616", "00012", "1a", " 1",
        "99999999999999999999999", "+18446744073709551615",
    ] {
        let cs: Vec<char> = s.chars().collect();
        assert_eq!(parse_u64(&cs), s.parse::<u64>().ok(), "{:?}", s);
    }
}

#[test]
fn chacha8_seed_42_sample_from_the_readme() {
    let mut c = ChaCha8Rng::new(42);
    let data: Vec<f64> = (0..24)
        .map(|_| {
            let v = ((c.next_u32() as u64) << 21) as f64 / (1u64 << 53) as f64;
            -1.0 + v * (1.0 - -1.0)
        })
        .collect();
    let nn = rust_to_ts::neural::NeuralNetwork::from_cells(3, 4, 2, data).unwrap();
    assert_eq!(nn.dims(), (3, 4, 2));
    assert_eq!(nn.len(), 24);
    let expected = [
        ((0, 0, 0), "-0.260221678763628"),
        ((0, 0, 1), "0.8884351472370327"),
        ((0, 1, 0), "0.12749235378578305"),
        ((0, 1, 1), "-0.8611383140087128"),
        ((1, 0, 0), "0.2225218079984188"),
        ((1, 0, 1), "0.017620211001485586"),
        ((1, 1, 0), "0.39068748988211155"),
        ((1, 1, 1), "0.44959122501313686"),
    ];
    for ((x, y, z), s) in expected {
        assert_eq!(format!("{}", nn.get(x, y, z).unwrap()), s);
    }
}
