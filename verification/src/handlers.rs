//! Request bodies and query parameters of the management API.

use vstd::prelude::*;
use crate::json::JsonV;

verus! {

/// Query of a model search on Hugging Face.
#[derive(Debug)]
pub struct HfSearchQuery {
    pub q: String,
    pub filter: String,
    pub limit: u32,
}

/// The file filter of a search that names none.
pub fn default_filter() -> (r: String)
    ensures
        r@ == "gguf"@,
{
    "gguf".to_owned()
}

/// The result limit of a search that names none.
pub fn default_limit() -> (r: u32)
    ensures
        r == 30,
{
    30
}

impl HfSearchQuery {
    /// A query for `q` with the default filter and limit.
    pub fn with_defaults(q: &str) -> (r: HfSearchQuery)
        ensures
            r.q@ == q@,
            r.filter@ == "gguf"@,
            r.limit == 30,
    {
        HfSearchQuery { q: q.to_owned(), filter: default_filter(), limit: default_limit() }
    }
}

/// Parameters of starting, stopping or deleting a local model.
#[derive(Debug, Clone, Copy, PartialEq, Eq, Structural)]
pub struct StartStopParams {
    /// Whether the weight files are removed too (delete only); off unless given.
    pub remove_files: bool,
}

/// The Hugging Face mirror switch.
#[derive(Debug, Clone, Copy, PartialEq, Eq, Structural)]
pub struct MirrorReq {
    pub mirror: bool,
}

/// A change to a plugin's settings; each absent field is left as it is.
#[derive(Debug)]
pub struct UpdatePluginBody {
    pub autostart: Option<bool>,
    pub work_dir: Option<String>,
}

impl Default for UpdatePluginBody {
    fn default() -> (r: UpdatePluginBody)
        ensures
            r.autostart is None,
            r.work_dir is None,
    {
        UpdatePluginBody { autostart: None, work_dir: None }
    }
}

// ---- service keys ----

/// How a key is shown once stored: `****` and its last four characters.
pub open spec fn mask_spec(k: Seq<char>) -> Seq<char> {
    if k.len() >= 4 {
        "****"@ + k.skip(k.len() - 4)
    } else {
        "****"@
    }
}

/// The masked form of a key.
pub fn mask_key(k: &str) -> (r: String)
    ensures
        r@ == mask_spec(k@),
{
    let n = k.unicode_len();
    let mut r = "****".to_owned();
    if n >= 4 {
        let tail = crate::text::substring(k, n - 4, n);
        r.append(tail.as_str());
    }
    r
}

/// A freshly made service key: the key itself, shown once, and its mask.
pub struct NewServiceKey {
    pub raw_key: String,
    pub key_masked: String,
}

/// Makes a service key: `xrl-` and 32 random lowercase hexadecimal digits.
pub fn new_service_key() -> (r: NewServiceKey)
    ensures
        r.raw_key@.len() == 36,
        r.raw_key@.take(4) == "xrl-"@,
        forall|i: int| 4 <= i < 36 ==> #[trigger] crate::outside::is_lower_hex(r.raw_key@[i]),
        r.key_masked@ == mask_spec(r.raw_key@),
{
    let id = crate::outside::new_uuid_simple();
    let mut raw = "xrl-".to_owned();
    raw.append(id.as_str());
    proof {
        reveal_strlit("xrl-");
        assert(raw@.take(4) =~= "xrl-"@);
        assert forall|i: int| 4 <= i < 36 implies #[trigger] crate::outside::is_lower_hex(raw@[i]) by {
            assert(raw@[i] == id@[i - 4]);
        }
    }
    let masked = mask_key(raw.as_str());
    NewServiceKey { raw_key: raw, key_masked: masked }
}

/// The stored form of a key's model whitelist: the JSON text of the list.
pub fn allowed_models_json(models: &Vec<String>) -> (r: String)
    ensures
        r@ == crate::json::json_text(
            JsonV::Array(models@.map_values(|m: String| crate::json::jstr(m@))),
        ),
{
    let mut items: Vec<crate::json::Json> = Vec::new();
    let mut i: usize = 0;
    while i < models.len()
        invariant
            i <= models@.len(),
            crate::json::items_view(items@) == models@.take(i as int).map_values(
                |m: String| crate::json::jstr(m@),
            ),
        decreases models@.len() - i,
    {
        let ghost before = items@;
        items.push(crate::json::json_string(models[i].as_str()));
        proof {
            crate::json::lemma_items_view_push(before, items@.last());
            assert(items@ =~= before.push(items@.last()));
            assert(models@.take(i as int + 1).map_values(|m: String| crate::json::jstr(m@))
                =~= models@.take(i as int).map_values(|m: String| crate::json::jstr(m@)).push(
                crate::json::jstr(models@[i as int]@),
            ));
        }
        i = i + 1;
    }
    proof {
        assert(models@.take(i as int) =~= models@);
    }
    let doc = crate::json::array_of(items);
    crate::json::to_json_text(&doc)
}

/// A token quota as stored: a negative one is taken as not given.
pub fn quota_setting(v: Option<i64>) -> (r: Option<i64>)
    ensures
        r == match v {
            Some(x) => if x >= 0 {
                Some(x)
            } else {
                None
            },
            None => None,
        },
{
    match v {
        Some(x) => if x >= 0 {
            Some(x)
        } else {
            None
        },
        None => None,
    }
}

// ---- provider order ----

/// Why a new provider order is refused (400).
#[derive(Debug, PartialEq, Eq)]
pub enum ReorderError {
    Empty,
    Duplicate(String),
    Unknown(String),
}

impl ReorderError {
    /// The message of the refusal.
    pub fn message(&self) -> (r: String)
        ensures
            r@ == match self {
                ReorderError::Empty => "ids must not be empty"@,
                ReorderError::Duplicate(id) => "duplicate id: "@ + id@,
                ReorderError::Unknown(id) => "unknown provider id: "@ + id@,
            },
    {
        match self {
            ReorderError::Empty => "ids must not be empty".to_owned(),
            ReorderError::Duplicate(id) => {
                let mut m = "duplicate id: ".to_owned();
                m.append(id.as_str());
                m
            },
            ReorderError::Unknown(id) => {
                let mut m = "unknown provider id: ".to_owned();
                m.append(id.as_str());
                m
            },
        }
    }
}

/// Whether the id at `i` repeats one before it, or names no provider.
pub open spec fn reorder_bad_at(ids: Seq<Seq<char>>, known: Seq<Seq<char>>, i: int) -> bool {
    ids.take(i).contains(ids[i]) || !known.contains(ids[i])
}

/// Checks a new order of the providers: the ids must be non-empty, distinct
/// and all known; the first id, in order, that repeats an earlier one or is
/// unknown is reported (a repeat before an unknown one).
pub fn validate_reorder(ids: &Vec<String>, known: &Vec<String>) -> (r: Result<(), ReorderError>)
    ensures
        ({
            let iv = strings_view(ids@);
            let kv = strings_view(known@);
            match r {
                Ok(()) => iv.len() > 0 && (forall|i: int| 0 <= i < iv.len() ==> !reorder_bad_at(iv, kv, i)),
                Err(ReorderError::Empty) => iv.len() == 0,
                Err(ReorderError::Duplicate(id)) => exists|i: int|
                    0 <= i < iv.len() && iv.take(i).contains(iv[i]) && id@ == iv[i] && (forall|j: int|
                        0 <= j < i ==> !reorder_bad_at(iv, kv, j)),
                Err(ReorderError::Unknown(id)) => exists|i: int|
                    0 <= i < iv.len() && !iv.take(i).contains(iv[i]) && !kv.contains(iv[i]) && id@
                        == iv[i] && (forall|j: int| 0 <= j < i ==> !reorder_bad_at(iv, kv, j)),
            }
        }),
{
    let ghost iv = strings_view(ids@);
    let ghost kv = strings_view(known@);
    if ids.len() == 0 {
        return Err(ReorderError::Empty);
    }
    let mut i: usize = 0;
    while i < ids.len()
        invariant
            i <= ids@.len(),
            iv == strings_view(ids@),
            kv == strings_view(known@),
            forall|j: int| 0 <= j < i ==> !reorder_bad_at(iv, kv, j),
        decreases ids@.len() - i,
    {
        proof {
            assert(iv[i as int] == ids@[i as int]@);
        }
        if position_in(ids, i, ids[i].as_str()) {
            return Err(ReorderError::Duplicate(ids[i].clone()));
        }
        if !position_in(known, known.len(), ids[i].as_str()) {
            proof {
                assert(kv.take(known@.len() as int) =~= kv);
            }
            return Err(ReorderError::Unknown(ids[i].clone()));
        }
        proof {
            assert(kv.take(known@.len() as int) =~= kv);
        }
        i = i + 1;
    }
    Ok(())
}

pub open spec fn strings_view(v: Seq<String>) -> Seq<Seq<char>> {
    v.map_values(|s: String| s@)
}

/// Whether `x` is among the first `n` strings of `v`.
fn position_in(v: &Vec<String>, n: usize, x: &str) -> (r: bool)
    requires
        n <= v@.len(),
    ensures
        r == strings_view(v@).take(n as int).contains(x@),
{
    let ghost sv = strings_view(v@);
    let mut k: usize = 0;
    while k < n
        invariant
            k <= n <= v@.len(),
            sv == strings_view(v@),
            forall|j: int| 0 <= j < k ==> sv[j] != x@,
        decreases n - k,
    {
        proof {
            assert(sv[k as int] == v@[k as int]@);
        }
        if crate::json::str_eq(v[k].as_str(), x) {
            proof {
                assert(sv.take(n as int)[k as int] == x@);
            }
            return true;
        }
        k = k + 1;
    }
    proof {
        assert forall|j: int| 0 <= j < sv.take(n as int).len() implies sv.take(n as int)[j] != x@ by {
            assert(sv.take(n as int)[j] == sv[j]);
        }
    }
    false
}

// ---- listing an upstream's models ----

/// The headers of a request for an upstream's model list: none without a
/// key; an Anthropic upstream takes it as `x-api-key` with an API version,
/// others as a bearer token.
pub open spec fn fetch_models_headers_spec(kind: Seq<char>, key: Option<Seq<char>>) -> Seq<(Seq<char>, Seq<char>)> {
    match key {
        Some(k) => if k.len() == 0 {
            Seq::empty()
        } else if kind == "messages"@ {
            seq![("x-api-key"@, k), ("anthropic-version"@, "2023-06-01"@)]
        } else {
            seq![("Authorization"@, "Bearer "@ + k)]
        },
        None => Seq::empty(),
    }
}

pub fn fetch_models_headers(kind: &str, key: Option<&str>) -> (r: Vec<(String, String)>)
    ensures
        r@.map_values(|h: (String, String)| (h.0@, h.1@)) == fetch_models_headers_spec(
            kind@,
            match key {
                Some(k) => Some(k@),
                None => None,
            },
        ),
{
    let mut out: Vec<(String, String)> = Vec::new();
    match key {
        Some(k) => {
            if k.unicode_len() > 0 {
                if crate::json::str_eq(kind, "messages") {
                    out.push(("x-api-key".to_owned(), k.to_owned()));
                    out.push(("anthropic-version".to_owned(), "2023-06-01".to_owned()));
                } else {
                    let mut b = "Bearer ".to_owned();
                    b.append(k);
                    out.push(("Authorization".to_owned(), b));
                }
            }
        },
        None => {},
    }
    proof {
        assert(out@.map_values(|h: (String, String)| (h.0@, h.1@)) =~= fetch_models_headers_spec(
            kind@,
            match key {
                Some(k) => Some(k@),
                None => None,
            },
        ));
    }
    out
}

/// The string `id`s of the entries of a model list's `data` array, in
/// order; entries without one are skipped.
pub open spec fn model_ids_spec(items: Seq<JsonV>) -> Seq<Seq<char>>
    decreases items.len(),
{
    if items.len() == 0 {
        Seq::empty()
    } else {
        let rest = model_ids_spec(items.drop_last());
        match items.last().str_at("id"@) {
            Some(id) => rest.push(id),
            None => rest,
        }
    }
}

/// The model ids of an upstream's model list (`data[*].id`).
pub fn model_ids_of(body: &crate::json::Json) -> (r: Vec<String>)
    ensures
        strings_view(r@) == match body@.array_at("data"@) {
            Some(items) => model_ids_spec(items),
            None => Seq::empty(),
        },
{
    let mut out: Vec<String> = Vec::new();
    proof {
        assert(strings_view(out@) =~= Seq::<Seq<char>>::empty());
    }
    let items = match body.array_at("data") {
        Some(a) => a,
        None => {
            return out;
        },
    };
    let ghost iv = crate::json::items_view(items@);
    proof {
        crate::json::lemma_items_view_len(items@);
    }
    let mut i: usize = 0;
    while i < items.len()
        invariant
            i <= items@.len(),
            iv == crate::json::items_view(items@),
            iv.len() == items@.len(),
            strings_view(out@) == model_ids_spec(iv.take(i as int)),
        decreases items@.len() - i,
    {
        proof {
            crate::json::lemma_items_view_index(items@, i as int);
            assert(iv.take(i as int + 1).drop_last() =~= iv.take(i as int));
        }
        match items[i].str_at("id") {
            Some(id) => {
                let ghost before = strings_view(out@);
                out.push(id.to_owned());
                proof {
                    assert(strings_view(out@) =~= before.push(id@));
                }
            },
            None => {},
        }
        i = i + 1;
    }
    proof {
        assert(iv.take(i as int) =~= iv);
    }
    out
}

// ---- statistics and settings ----

/// The page of the request log asked for: page 1 by default and at least 1;
/// 10 entries by default, between 1 and 100.
pub fn log_page(page: Option<i64>, page_size: Option<i64>) -> (r: (i64, i64))
    ensures
        r.0 == match page {
            Some(p) => if p >= 1 {
                p
            } else {
                1
            },
            None => 1,
        },
        r.1 == match page_size {
            Some(n) => if n < 1 {
                1
            } else if n > 100 {
                100
            } else {
                n
            },
            None => 10,
        },
{
    let p = match page {
        Some(p) => if p >= 1 {
            p
        } else {
            1
        },
        None => 1,
    };
    let n = match page_size {
        Some(n) => if n < 1 {
            1
        } else if n > 100 {
            100
        } else {
            n
        },
        None => 10,
    };
    (p, n)
}

/// The window and buckets of a usage query.
#[derive(Debug, Clone, Copy, PartialEq, Eq, Structural)]
pub struct StatsWindow {
    pub from: i64,
    pub to: i64,
    pub bucket_seconds: i64,
    pub tz_offset: i64,
}

/// The usage window asked for: the last day up to `now` unless given,
/// hourly buckets for the `hour` granularity and daily ones otherwise, and
/// no time-zone offset unless given.
pub fn stats_window(
    from: Option<i64>,
    to: Option<i64>,
    granularity: Option<&str>,
    tz_offset: Option<i64>,
    now: i64,
) -> (r: StatsWindow)
    requires
        now >= i64::MIN + 86400,
    ensures
        r.from == match from {
            Some(f) => f,
            None => (now - 86400) as i64,
        },
        r.to == match to {
            Some(t) => t,
            None => now,
        },
        r.bucket_seconds == (if granularity matches Some(g) && g@ == "hour"@ {
            3600i64
        } else {
            86400i64
        }),
        r.tz_offset == match tz_offset {
            Some(z) => z,
            None => 0,
        },
{
    let f = match from {
        Some(f) => f,
        None => now - 86400,
    };
    let t = match to {
        Some(t) => t,
        None => now,
    };
    let b: i64 = match granularity {
        Some(g) => if crate::json::str_eq(g, "hour") {
            3600
        } else {
            86400
        },
        None => 86400,
    };
    let z = match tz_offset {
        Some(z) => z,
        None => 0,
    };
    StatsWindow { from: f, to: t, bucket_seconds: b, tz_offset: z }
}

/// How a switch is stored as a setting.
pub fn setting_bool_text(v: bool) -> (r: &'static str)
    ensures
        r@ == (if v {
            "true"@
        } else {
            "false"@
        }),
{
    if v {
        "true"
    } else {
        "false"
    }
}

pub open spec fn or_default(o: Option<Seq<char>>, d: Seq<char>) -> Seq<char> {
    match o {
        Some(s) => s,
        None => d,
    }
}

/// The stored hue as a number: 264 where it is unset or not an `i32`.
pub open spec fn hue_value(hue: Option<Seq<char>>) -> i32 {
    match crate::config::parse_i32_spec(or_default(hue, "264"@)) {
        Some(h) => h,
        None => 264,
    }
}

/// The look of the console: the stored theme, hue and locale, with
/// `system`, 264 and `zh-CN` where unset.
pub open spec fn ui_settings_spec(
    theme: Option<Seq<char>>,
    hue: Option<Seq<char>>,
    locale: Option<Seq<char>>,
) -> Seq<(Seq<char>, JsonV)> {
    seq![
        ("theme"@, JsonV::Str(or_default(theme, "system"@))),
        ("hue"@, JsonV::Int(hue_value(hue) as int)),
        ("locale"@, JsonV::Str(or_default(locale, "zh-CN"@))),
    ]
}

fn opt_ref_view(o: &Option<String>) -> (r: Option<&str>)
    ensures
        match r {
            Some(s) => o matches Some(x) && s@ == x@,
            None => o is None,
        },
{
    match o {
        Some(x) => Some(x.as_str()),
        None => None,
    }
}

fn ui_fields(theme: &Option<String>, hue: &Option<String>, locale: &Option<String>) -> (r: Vec<(String, crate::json::Json)>)
    ensures
        crate::json::fields_view(r@) == ui_settings_spec(
            crate::json::opt_str_view(*theme),
            crate::json::opt_str_view(*hue),
            crate::json::opt_str_view(*locale),
        ),
{
    let t = match opt_ref_view(theme) {
        Some(t) => t,
        None => "system",
    };
    let h = match opt_ref_view(hue) {
        Some(h) => h,
        None => "264",
    };
    let hv: i32 = match crate::config::parse_i32(h) {
        Some(v) => v,
        None => 264,
    };
    let l = match opt_ref_view(locale) {
        Some(l) => l,
        None => "zh-CN",
    };
    let mut f: Vec<(String, crate::json::Json)> = Vec::new();
    crate::json::push_field(&mut f, "theme", crate::json::json_string(t));
    crate::json::push_field(&mut f, "hue", crate::json::json_i64(hv as i64));
    crate::json::push_field(&mut f, "locale", crate::json::json_string(l));
    proof {
        assert(crate::json::fields_view(f@) =~= ui_settings_spec(
            crate::json::opt_str_view(*theme),
            crate::json::opt_str_view(*hue),
            crate::json::opt_str_view(*locale),
        ));
    }
    f
}

/// The document of `GET /api/ui-settings`, from the stored settings.
pub fn ui_settings_json(theme: &Option<String>, hue: &Option<String>, locale: &Option<String>) -> (r: crate::json::Json)
    ensures
        r@ == JsonV::Object(
            ui_settings_spec(
                crate::json::opt_str_view(*theme),
                crate::json::opt_str_view(*hue),
                crate::json::opt_str_view(*locale),
            ),
        ),
{
    crate::json::object_of(ui_fields(theme, hue, locale))
}

/// The document of `GET /api/settings`: the three switches, then the look
/// of the console.
pub fn settings_json(
    mcp_websearch: bool,
    mcp_webfetch: bool,
    failover_enabled: bool,
    theme: &Option<String>,
    hue: &Option<String>,
    locale: &Option<String>,
) -> (r: crate::json::Json)
    ensures
        r@ == JsonV::Object(
            seq![
                ("mcp_websearch"@, JsonV::Bool(mcp_websearch)),
                ("mcp_webfetch"@, JsonV::Bool(mcp_webfetch)),
                ("failover_enabled"@, JsonV::Bool(failover_enabled)),
            ] + ui_settings_spec(
                crate::json::opt_str_view(*theme),
                crate::json::opt_str_view(*hue),
                crate::json::opt_str_view(*locale),
            ),
        ),
{
    let mut f: Vec<(String, crate::json::Json)> = Vec::new();
    crate::json::push_field(&mut f, "mcp_websearch", crate::json::Json::Bool(mcp_websearch));
    crate::json::push_field(&mut f, "mcp_webfetch", crate::json::Json::Bool(mcp_webfetch));
    crate::json::push_field(&mut f, "failover_enabled", crate::json::Json::Bool(failover_enabled));
    let ghost head = crate::json::fields_view(f@);
    proof {
        assert(head =~= seq![
            ("mcp_websearch"@, JsonV::Bool(mcp_websearch)),
            ("mcp_webfetch"@, JsonV::Bool(mcp_webfetch)),
            ("failover_enabled"@, JsonV::Bool(failover_enabled)),
        ]);
    }
    let ui = ui_fields(theme, hue, locale);
    let mut k: usize = 0;
    let ghost uv = crate::json::fields_view(ui@);
    proof {
        crate::json::lemma_fields_view_len(ui@);
        assert(head + uv.take(0) =~= head);
    }
    let n = ui.len();
    let mut rest = ui;
    while k < n
        invariant
            k <= n,
            n == uv.len(),
            crate::json::fields_view(rest@) == uv.skip(k as int),
            crate::json::fields_view(f@) == head + uv.take(k as int),
        decreases n - k,
    {
        proof {
            crate::json::lemma_fields_view_len(rest@);
        }
        let ghost rv = rest@;
        let e = rest.remove(0);
        proof {
            crate::json::lemma_fields_view_index(rv, 0);
            assert(uv.skip(k as int)[0] == (e.0@, e.1@));
            assert(rest@ =~= rv.drop_first());
            lemma_fields_view_drop_first(rv);
            assert(uv.skip(k as int).drop_first() =~= uv.skip(k as int + 1));
        }
        let ghost before = f@;
        f.push(e);
        proof {
            crate::json::lemma_fields_view_push(before, f@.last());
            assert(f@ =~= before.push(f@.last()));
            assert(head + uv.take(k as int + 1) =~= (head + uv.take(k as int)).push(uv[k as int]));
        }
        k = k + 1;
    }
    proof {
        assert(uv.take(k as int) =~= uv);
    }
    crate::json::object_of(f)
}

proof fn lemma_fields_view_drop_first(s: Seq<(String, crate::json::Json)>)
    requires
        s.len() > 0,
    ensures
        crate::json::fields_view(s.drop_first()) == crate::json::fields_view(s).drop_first(),
    decreases s.len(),
{
    crate::json::lemma_fields_view_len(s);
    crate::json::lemma_fields_view_len(s.drop_first());
    assert forall|i: int| 0 <= i < s.len() - 1 implies crate::json::fields_view(s.drop_first())[i]
        == crate::json::fields_view(s).drop_first()[i] by {
        crate::json::lemma_fields_view_index(s.drop_first(), i);
        crate::json::lemma_fields_view_index(s, i + 1);
    }
    assert(crate::json::fields_view(s.drop_first()) =~= crate::json::fields_view(s).drop_first());
}

} // verus!
