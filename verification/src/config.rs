//! Application configuration: defaults, and the values the environment may
//! override.

use vstd::prelude::*;

verus! {

/// The configuration of the HTTP service.
#[derive(Debug)]
pub struct Config {
    pub port: u16,
    pub host: String,
    pub db_path: String,
    pub log_level: String,
    pub api_key: Option<String>,
    pub cors_origins: Vec<String>,
}

/// The decimal digits of a number.
pub open spec fn decimal(n: nat) -> Seq<char>
    decreases n,
{
    if n < 10 {
        seq![digit_char(n)]
    } else {
        decimal(n / 10).push(digit_char(n % 10))
    }
}

pub open spec fn digit_char(d: nat) -> char {
    if d == 0 {
        '0'
    } else if d == 1 {
        '1'
    } else if d == 2 {
        '2'
    } else if d == 3 {
        '3'
    } else if d == 4 {
        '4'
    } else if d == 5 {
        '5'
    } else if d == 6 {
        '6'
    } else if d == 7 {
        '7'
    } else if d == 8 {
        '8'
    } else {
        '9'
    }
}

fn digit_exec(d: u64) -> (r: char)
    requires
        d < 10,
    ensures
        r == digit_char(d as nat),
{
    if d == 0 {
        '0'
    } else if d == 1 {
        '1'
    } else if d == 2 {
        '2'
    } else if d == 3 {
        '3'
    } else if d == 4 {
        '4'
    } else if d == 5 {
        '5'
    } else if d == 6 {
        '6'
    } else if d == 7 {
        '7'
    } else if d == 8 {
        '8'
    } else {
        '9'
    }
}

/// The decimal form of a number.
pub fn decimal_string(n: u64) -> (r: String)
    ensures
        r@ == decimal(n as nat),
    decreases n,
{
    if n < 10 {
        let v = vec![digit_exec(n)];
        let r = crate::text::string_from_chars(v.as_slice());
        proof {
            assert(r@ =~= seq![digit_char(n as nat)]);
        }
        r
    } else {
        let mut head = decimal_string(n / 10);
        let v = vec![digit_exec(n % 10)];
        let tail = crate::text::string_from_chars(v.as_slice());
        head.append(tail.as_str());
        proof {
            assert(head@ =~= decimal((n / 10) as nat).push(digit_char((n % 10) as nat)));
        }
        head
    }
}

pub open spec fn default_cors() -> Seq<Seq<char>> {
    seq![
        "http://localhost:5173"@,
        "http://127.0.0.1:5173"@,
        "http://localhost:19068"@,
        "http://127.0.0.1:19068"@,
        "tauri://localhost"@,
        "https://tauri.localhost"@,
        "http://tauri.localhost"@,
    ]
}

pub open spec fn strings_view(v: Seq<String>) -> Seq<Seq<char>> {
    v.map_values(|s: String| s@)
}

impl Default for Config {
    fn default() -> (r: Config)
        ensures
            r.port == 19068,
            r.host@ == "0.0.0.0"@,
            r.db_path@ == "data/xrl-router.db"@,
            r.log_level@ == "info"@,
            r.api_key is None,
            strings_view(r.cors_origins@) == default_cors(),
    {
        let cors = vec![
            "http://localhost:5173".to_owned(),
            "http://127.0.0.1:5173".to_owned(),
            "http://localhost:19068".to_owned(),
            "http://127.0.0.1:19068".to_owned(),
            "tauri://localhost".to_owned(),
            "https://tauri.localhost".to_owned(),
            "http://tauri.localhost".to_owned(),
        ];
        proof {
            assert(strings_view(cors@) =~= default_cors());
        }
        Config {
            port: 19068,
            host: "0.0.0.0".to_owned(),
            db_path: "data/xrl-router.db".to_owned(),
            log_level: "info".to_owned(),
            api_key: None,
            cors_origins: cors,
        }
    }
}

impl Config {
    /// The socket address to listen on: `host:port`.
    pub fn addr(&self) -> (r: String)
        ensures
            r@ == self.host@ + ":"@ + decimal(self.port as nat),
    {
        let mut r = self.host.clone();
        r.append(":");
        let p = decimal_string(self.port as u64);
        r.append(p.as_str());
        r
    }
}

// ---- reading the environment's values ----

/// The value of an ASCII digit.
pub open spec fn digit_value(c: char) -> nat {
    (c as int - '0' as int) as nat
}

pub open spec fn is_digit(c: char) -> bool {
    '0' <= c && c <= '9'
}

/// The number that a string of decimal digits writes.
pub open spec fn digits_value(s: Seq<char>) -> nat
    decreases s.len(),
{
    if s.len() == 0 {
        0
    } else {
        digits_value(s.drop_last()) * 10 + digit_value(s.last())
    }
}

/// The text after an optional leading `+`.
pub open spec fn unsigned_digits(s: Seq<char>) -> Seq<char> {
    if s.len() > 0 && s[0] == '+' {
        s.drop_first()
    } else {
        s
    }
}

pub open spec fn all_digits(d: Seq<char>) -> bool {
    forall|i: int| 0 <= i < d.len() ==> #[trigger] is_digit(d[i])
}

/// How `u16`'s `from_str` reads a text: an optional `+`, then one or more
/// decimal digits whose value fits in 16 bits; anything else is refused.
pub open spec fn parse_u16_spec(s: Seq<char>) -> Option<u16> {
    let d = unsigned_digits(s);
    if d.len() > 0 && all_digits(d) && digits_value(d) <= 65535 {
        Some(digits_value(d) as u16)
    } else {
        None
    }
}

/// Reads a port number as `u16`'s `from_str` does.
pub fn parse_u16(s: &str) -> (r: Option<u16>)
    ensures
        r == parse_u16_spec(s@),
{
    let cs = crate::text::chars_of(s);
    let start: usize = if cs.len() > 0 && cs[0] == '+' {
        1
    } else {
        0
    };
    let ghost d = unsigned_digits(s@);
    proof {
        assert(d =~= cs@.skip(start as int));
    }
    if start >= cs.len() {
        return None;
    }
    let mut v: u32 = 0;
    let mut i: usize = start;
    while i < cs.len()
        invariant
            start <= i <= cs@.len(),
            cs@ == s@,
            start == 1 <==> (s@.len() > 0 && s@[0] == '+'),
            d == unsigned_digits(s@),
            d == cs@.skip(start as int),
            v as nat == digits_value(d.take(i - start)),
            v <= 65535,
            forall|k: int| 0 <= k < i - start ==> #[trigger] is_digit(d[k]),
        decreases cs@.len() - i,
    {
        let c = cs[i];
        proof {
            assert(d.take(i - start + 1).drop_last() =~= d.take(i - start));
            assert(d[i - start] == c);
        }
        if !('0' <= c && c <= '9') {
            proof {
                assert(!is_digit(d[i - start]));
                lemma_not_all_digits(s@, d, i - start);
            }
            return None;
        }
        let dv: u32 = (c as u32) - ('0' as u32);
        let nv: u32 = v * 10 + dv;
        if nv > 65535 {
            proof {
                assert(d[i - start] == c);
                assert(digits_value(d.take(i - start + 1)) == nv);
                lemma_digits_grow(d, (i - start + 1) as int);
            }
            return None;
        }
        v = nv;
        i = i + 1;
    }
    proof {
        assert(d.take(i - start) =~= d);
    }
    Some(v as u16)
}

proof fn lemma_not_all_digits(s: Seq<char>, d: Seq<char>, j: int)
    requires
        d == unsigned_digits(s),
        0 <= j < d.len(),
        !is_digit(d[j]),
    ensures
        parse_u16_spec(s) is None,
{
    assert(!(forall|k: int| 0 <= k < d.len() ==> #[trigger] is_digit(d[k])));
}

/// Digits that follow a prefix never make its value smaller.
proof fn lemma_digits_grow(d: Seq<char>, k: int)
    requires
        0 <= k <= d.len(),
    ensures
        digits_value(d.take(k)) <= digits_value(d),
    decreases d.len() - k,
{
    if k < d.len() {
        lemma_digits_grow(d, k + 1);
        assert(d.take(k + 1).drop_last() =~= d.take(k));
    } else {
        assert(d.take(k) =~= d);
    }
}

/// The pieces of `s` between commas, left to right (one empty piece for an
/// empty text), as `str::split(',')` gives them.
pub open spec fn split_commas(s: Seq<char>) -> Seq<Seq<char>>
    decreases s.len(),
{
    if s.len() == 0 {
        seq![Seq::empty()]
    } else {
        let p = split_commas(s.drop_last());
        if s.last() == ',' {
            p.push(Seq::empty())
        } else {
            p.update(p.len() - 1, p.last().push(s.last()))
        }
    }
}

/// The pieces, trimmed, without the empty ones.
pub open spec fn trimmed_nonempty(ps: Seq<Seq<char>>) -> Seq<Seq<char>>
    decreases ps.len(),
{
    if ps.len() == 0 {
        Seq::empty()
    } else {
        let rest = trimmed_nonempty(ps.drop_last());
        let t = crate::text::trim_spec(ps.last());
        if t.len() > 0 {
            rest.push(t)
        } else {
            rest
        }
    }
}

/// The origins of a comma-separated list.
pub open spec fn origins_spec(s: Seq<char>) -> Seq<Seq<char>> {
    trimmed_nonempty(split_commas(s))
}

proof fn lemma_split_len(s: Seq<char>)
    ensures
        split_commas(s).len() >= 1,
    decreases s.len(),
{
    if s.len() > 0 {
        lemma_split_len(s.drop_last());
    }
}

/// The origins of a comma-separated list: each piece trimmed, empty ones
/// dropped.
pub fn parse_origins(s: &str) -> (r: Vec<String>)
    ensures
        strings_view(r@) == origins_spec(s@),
{
    let cs = crate::text::chars_of(s);
    let mut done: Vec<String> = Vec::new();
    let mut cur: Vec<char> = Vec::new();
    let mut i: usize = 0;
    proof {
        assert(strings_view(done@) =~= Seq::<Seq<char>>::empty());
        assert(cs@.take(0) =~= Seq::<char>::empty());
        assert(split_commas(Seq::<char>::empty()).drop_last() =~= Seq::<Seq<char>>::empty());
    }
    while i < cs.len()
        invariant
            i <= cs@.len(),
            cs@ == s@,
            split_commas(cs@.take(i as int)).len() >= 1,
            strings_view(done@) == trimmed_nonempty(split_commas(cs@.take(i as int)).drop_last()),
            cur@ == split_commas(cs@.take(i as int)).last(),
        decreases cs@.len() - i,
    {
        let c = cs[i];
        let ghost before = split_commas(cs@.take(i as int));
        proof {
            assert(cs@.take(i as int + 1).drop_last() =~= cs@.take(i as int));
            assert(cs@.take(i as int + 1).last() == c);
        }
        if c == ',' {
            let piece = crate::text::string_from_chars(cur.as_slice());
            let t = crate::text::trim(piece.as_str());
            if t.unicode_len() > 0 {
                let ghost dv = strings_view(done@);
                done.push(t);
                proof {
                    assert(strings_view(done@) =~= dv.push(crate::text::trim_spec(cur@)));
                }
            }
            cur = Vec::new();
            proof {
                let after = split_commas(cs@.take(i as int + 1));
                assert(after == before.push(Seq::empty()));
                assert(after.drop_last() =~= before);
                assert(before =~= before.drop_last().push(before.last()));
                assert(cur@ =~= after.last());
            }
        } else {
            cur.push(c);
            proof {
                let after = split_commas(cs@.take(i as int + 1));
                assert(after.drop_last() =~= before.drop_last());
            }
        }
        i = i + 1;
    }
    proof {
        assert(cs@.take(i as int) =~= s@);
    }
    let piece = crate::text::string_from_chars(cur.as_slice());
    let t = crate::text::trim(piece.as_str());
    let ghost all = split_commas(s@);
    proof {
        assert(all =~= all.drop_last().push(all.last()));
    }
    if t.unicode_len() > 0 {
        let ghost dv = strings_view(done@);
        done.push(t);
        proof {
            assert(strings_view(done@) =~= dv.push(crate::text::trim_spec(cur@)));
        }
    }
    done
}

/// The environment's values for the configuration, each absent where the
/// variable is unset.
#[derive(Debug)]
pub struct ConfigEnv {
    pub port: Option<String>,
    pub host: Option<String>,
    pub db_path: Option<String>,
    pub log_level: Option<String>,
    pub api_key: Option<String>,
    pub cors_origins: Option<String>,
}

pub open spec fn opt_or(o: Option<String>, d: Seq<char>) -> Seq<char> {
    match o {
        Some(s) => s@,
        None => d,
    }
}

impl Config {
    /// The configuration of the given environment: each set variable
    /// overrides its default, a port that does not read as `u16` and an
    /// empty API key are ignored, and so is an origin list with no origin.
    pub fn from_values(env: &ConfigEnv) -> (r: Config)
        ensures
            r.port == match env.port {
                Some(p) => match parse_u16_spec(p@) {
                    Some(n) => n,
                    None => 19068u16,
                },
                None => 19068u16,
            },
            r.host@ == opt_or(env.host, "0.0.0.0"@),
            r.db_path@ == opt_or(env.db_path, "data/xrl-router.db"@),
            r.log_level@ == opt_or(env.log_level, "info"@),
            r.api_key == match env.api_key {
                Some(k) => if k@.len() > 0 {
                    Some(k)
                } else {
                    None
                },
                None => None,
            },
            strings_view(r.cors_origins@) == match env.cors_origins {
                Some(o) => if origins_spec(o@).len() > 0 {
                    origins_spec(o@)
                } else {
                    default_cors()
                },
                None => default_cors(),
            },
    {
        let mut config = Config::default();
        match &env.port {
            Some(p) => match parse_u16(p.as_str()) {
                Some(n) => {
                    config.port = n;
                },
                None => {},
            },
            None => {},
        }
        match &env.host {
            Some(h) => {
                config.host = h.clone();
            },
            None => {},
        }
        match &env.db_path {
            Some(d) => {
                config.db_path = d.clone();
            },
            None => {},
        }
        match &env.log_level {
            Some(l) => {
                config.log_level = l.clone();
            },
            None => {},
        }
        match &env.api_key {
            Some(k) => {
                if k.unicode_len() > 0 {
                    config.api_key = Some(k.clone());
                }
            },
            None => {},
        }
        match &env.cors_origins {
            Some(o) => {
                let parsed = parse_origins(o.as_str());
                if parsed.len() > 0 {
                    config.cors_origins = parsed;
                }
            },
            None => {},
        }
        config
    }
}

/// How `i32`'s `from_str` reads a text: an optional sign, then one or more
/// decimal digits whose signed value fits in 32 bits.
pub open spec fn parse_i32_spec(s: Seq<char>) -> Option<i32> {
    let neg = s.len() > 0 && s[0] == '-';
    let d = if s.len() > 0 && (s[0] == '+' || s[0] == '-') {
        s.drop_first()
    } else {
        s
    };
    let v: int = if neg {
        -(digits_value(d) as int)
    } else {
        digits_value(d) as int
    };
    if d.len() > 0 && all_digits(d) && i32::MIN <= v <= i32::MAX {
        Some(v as i32)
    } else {
        None
    }
}

/// Reads a number as `i32`'s `from_str` does.
pub fn parse_i32(s: &str) -> (r: Option<i32>)
    ensures
        r == parse_i32_spec(s@),
{
    let cs = crate::text::chars_of(s);
    let neg = cs.len() > 0 && cs[0] == '-';
    let start: usize = if cs.len() > 0 && (cs[0] == '+' || cs[0] == '-') {
        1
    } else {
        0
    };
    let ghost d = if s@.len() > 0 && (s@[0] == '+' || s@[0] == '-') {
        s@.drop_first()
    } else {
        s@
    };
    proof {
        assert(d =~= cs@.skip(start as int));
    }
    if start >= cs.len() {
        return None;
    }
    let limit: u64 = if neg {
        2147483648
    } else {
        2147483647
    };
    let mut v: u64 = 0;
    let mut i: usize = start;
    while i < cs.len()
        invariant
            start <= i <= cs@.len(),
            cs@ == s@,
            neg == (s@.len() > 0 && s@[0] == '-'),
            d == (if s@.len() > 0 && (s@[0] == '+' || s@[0] == '-') {
                s@.drop_first()
            } else {
                s@
            }),
            d == cs@.skip(start as int),
            limit == (if neg { 2147483648u64 } else { 2147483647u64 }),
            v as nat == digits_value(d.take(i - start)),
            v <= limit,
            forall|k: int| 0 <= k < i - start ==> #[trigger] is_digit(d[k]),
        decreases cs@.len() - i,
    {
        let c = cs[i];
        proof {
            assert(d.take(i - start + 1).drop_last() =~= d.take(i - start));
            assert(d[i - start] == c);
        }
        if !('0' <= c && c <= '9') {
            proof {
                lemma_not_all_digits_in(d, i - start);
            }
            return None;
        }
        let dv: u64 = (c as u64) - ('0' as u64);
        let nv: u64 = v * 10 + dv;
        if nv > limit {
            proof {
                assert(digits_value(d.take(i - start + 1)) == nv);
                lemma_digits_grow(d, (i - start + 1) as int);
            }
            return None;
        }
        v = nv;
        i = i + 1;
    }
    proof {
        assert(d.take(i - start) =~= d);
    }
    if neg {
        Some((0i64 - v as i64) as i32)
    } else {
        Some(v as i32)
    }
}

proof fn lemma_not_all_digits_in(d: Seq<char>, j: int)
    requires
        0 <= j < d.len(),
        !is_digit(d[j]),
    ensures
        !all_digits(d),
{
}

} // verus!
