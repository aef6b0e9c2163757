//! From a model alias to upstream routes.
//!
//! The database gives, for an alias, the enabled models and providers in
//! provider order; a provider delegated to a plugin takes its base URL and
//! API path from the plugin while it is connected and is skipped while it is
//! not.

use vstd::prelude::*;
use crate::json::{parse_json, str_eq, JsonV};

verus! {

/// One row of the alias query: a model and its provider.
pub struct RouteRow {
    /// The primary key of the model row.
    pub model_row_id: String,
    /// The model id the upstream knows.
    pub real_model_id: String,
    pub provider_id: String,
    pub provider_name: String,
    pub base_url: String,
    pub api_path: String,
    pub kind: String,
    /// The provider's configuration, as JSON text.
    pub config_json: String,
}

pub struct RouteRowV {
    pub model_row_id: Seq<char>,
    pub real_model_id: Seq<char>,
    pub provider_id: Seq<char>,
    pub provider_name: Seq<char>,
    pub base_url: Seq<char>,
    pub api_path: Seq<char>,
    pub kind: Seq<char>,
    pub config_json: Seq<char>,
}

impl View for RouteRow {
    type V = RouteRowV;

    open spec fn view(&self) -> RouteRowV {
        RouteRowV {
            model_row_id: self.model_row_id@,
            real_model_id: self.real_model_id@,
            provider_id: self.provider_id@,
            provider_name: self.provider_name@,
            base_url: self.base_url@,
            api_path: self.api_path@,
            kind: self.kind@,
            config_json: self.config_json@,
        }
    }
}

/// Where a connected plugin serves: its base URL and API path.
pub struct PluginEndpoint {
    pub plugin_id: String,
    pub base_url: String,
    pub api_path: String,
}

/// A resolved route: the upstream URL and what identifies the provider and
/// model; the plugin where the provider is delegated to one.
#[derive(Debug)]
pub struct ResolvedRoute {
    pub upstream_url: String,
    pub provider_kind: String,
    pub provider_id: String,
    pub provider_name: String,
    pub real_model_id: String,
    pub model_row_id: String,
    pub plugin_id: Option<String>,
}

pub struct ResolvedRouteV {
    pub upstream_url: Seq<char>,
    pub provider_kind: Seq<char>,
    pub provider_id: Seq<char>,
    pub provider_name: Seq<char>,
    pub real_model_id: Seq<char>,
    pub model_row_id: Seq<char>,
    pub plugin_id: Option<Seq<char>>,
}

impl View for ResolvedRoute {
    type V = ResolvedRouteV;

    open spec fn view(&self) -> ResolvedRouteV {
        ResolvedRouteV {
            upstream_url: self.upstream_url@,
            provider_kind: self.provider_kind@,
            provider_id: self.provider_id@,
            provider_name: self.provider_name@,
            real_model_id: self.real_model_id@,
            model_row_id: self.model_row_id@,
            plugin_id: crate::json::opt_str_view(self.plugin_id),
        }
    }
}

pub open spec fn endpoints_view(eps: Seq<PluginEndpoint>) -> Seq<(Seq<char>, Seq<char>, Seq<char>)> {
    eps.map_values(|e: PluginEndpoint| (e.plugin_id@, e.base_url@, e.api_path@))
}

/// The plugin a provider is delegated to: the `plugin_id` string of its
/// configuration, where the configuration is JSON.
pub open spec fn plugin_id_spec(config: Seq<char>) -> Option<Seq<char>> {
    match crate::json::json_text_value(config) {
        Some(v) => v.str_at("plugin_id"@),
        None => None,
    }
}

/// The base URL and API path of the first endpoint of the plugin.
pub open spec fn endpoint_of(eps: Seq<(Seq<char>, Seq<char>, Seq<char>)>, pid: Seq<char>) -> Option<
    (Seq<char>, Seq<char>),
>
    decreases eps.len(),
{
    if eps.len() == 0 {
        None
    } else if eps[0].0 == pid {
        Some((eps[0].1, eps[0].2))
    } else {
        endpoint_of(eps.drop_first(), pid)
    }
}

/// The route a row gives: through its plugin's endpoint where it is
/// delegated (none while the plugin is offline), else its own base URL and
/// path.
pub open spec fn route_of_row(r: RouteRowV, eps: Seq<(Seq<char>, Seq<char>, Seq<char>)>) -> Option<
    ResolvedRouteV,
> {
    let pid = plugin_id_spec(r.config_json);
    let ep = match pid {
        Some(p) => endpoint_of(eps, p),
        None => Some((r.base_url, r.api_path)),
    };
    match ep {
        Some((b, p)) => Some(
            ResolvedRouteV {
                upstream_url: b + p,
                provider_kind: r.kind,
                provider_id: r.provider_id,
                provider_name: r.provider_name,
                real_model_id: r.real_model_id,
                model_row_id: r.model_row_id,
                plugin_id: pid,
            },
        ),
        None => None,
    }
}

/// The candidates of the rows, in order: the first row of each provider
/// counts (even where its plugin is offline), and offline rows give none.
pub open spec fn candidates_fold(
    rows: Seq<RouteRowV>,
    eps: Seq<(Seq<char>, Seq<char>, Seq<char>)>,
) -> (Seq<Seq<char>>, Seq<ResolvedRouteV>)
    decreases rows.len(),
{
    if rows.len() == 0 {
        (Seq::empty(), Seq::empty())
    } else {
        let (seen, out) = candidates_fold(rows.drop_last(), eps);
        let r = rows.last();
        if seen.contains(r.provider_id) {
            (seen, out)
        } else {
            (
                seen.push(r.provider_id),
                match route_of_row(r, eps) {
                    Some(c) => out.push(c),
                    None => out,
                },
            )
        }
    }
}

/// Reads the plugin a provider configuration delegates to.
pub fn plugin_id_of_config(config_json: &str) -> (r: Option<String>)
    ensures
        crate::json::opt_str_view(r) == plugin_id_spec(config_json@),
{
    match parse_json(config_json) {
        Some(v) => match v.str_at("plugin_id") {
            Some(p) => Some(p.to_owned()),
            None => None,
        },
        None => None,
    }
}

fn find_endpoint(eps: &Vec<PluginEndpoint>, pid: &str) -> (r: Option<(String, String)>)
    ensures
        match r {
            Some((b, p)) => endpoint_of(endpoints_view(eps@), pid@) == Some((b@, p@)),
            None => endpoint_of(endpoints_view(eps@), pid@) is None,
        },
{
    let ghost ev = endpoints_view(eps@);
    let mut i: usize = 0;
    proof {
        assert(ev.skip(0) =~= ev);
    }
    while i < eps.len()
        invariant
            i <= eps@.len(),
            ev == endpoints_view(eps@),
            endpoint_of(ev.skip(i as int), pid@) == endpoint_of(ev, pid@),
        decreases eps@.len() - i,
    {
        proof {
            assert(ev.skip(i as int).drop_first() =~= ev.skip(i as int + 1));
        }
        if str_eq(eps[i].plugin_id.as_str(), pid) {
            return Some((eps[i].base_url.clone(), eps[i].api_path.clone()));
        }
        i = i + 1;
    }
    None
}

fn route_of_row_exec(r: &RouteRow, eps: &Vec<PluginEndpoint>) -> (res: Option<ResolvedRoute>)
    ensures
        match res {
            Some(c) => route_of_row(r@, endpoints_view(eps@)) == Some(c@),
            None => route_of_row(r@, endpoints_view(eps@)) is None,
        },
{
    let plugin_id = plugin_id_of_config(r.config_json.as_str());
    let ep: Option<(String, String)> = match &plugin_id {
        Some(p) => find_endpoint(eps, p.as_str()),
        None => Some((r.base_url.clone(), r.api_path.clone())),
    };
    match ep {
        Some((b, p)) => {
            let mut url = b;
            url.append(p.as_str());
            Some(
                ResolvedRoute {
                    upstream_url: url,
                    provider_kind: r.kind.clone(),
                    provider_id: r.provider_id.clone(),
                    provider_name: r.provider_name.clone(),
                    real_model_id: r.real_model_id.clone(),
                    model_row_id: r.model_row_id.clone(),
                    plugin_id,
                },
            )
        },
        None => None,
    }
}

fn contains_string(v: &Vec<String>, s: &str) -> (r: bool)
    ensures
        r == v@.map_values(|t: String| t@).contains(s@),
{
    let ghost vv = v@.map_values(|t: String| t@);
    let mut i: usize = 0;
    while i < v.len()
        invariant
            i <= v@.len(),
            vv == v@.map_values(|t: String| t@),
            forall|j: int| 0 <= j < i ==> vv[j] != s@,
        decreases v@.len() - i,
    {
        if str_eq(v[i].as_str(), s) {
            proof {
                assert(vv[i as int] == s@);
            }
            return true;
        }
        i = i + 1;
    }
    false
}

/// Every route the rows offer, in provider order, one per provider; `None`
/// where none is available.
pub fn resolve_route_candidates(rows: &Vec<RouteRow>, plugins: &Vec<PluginEndpoint>) -> (r: Option<
    Vec<ResolvedRoute>,
>)
    ensures
        ({
            let out = candidates_fold(rows@.map_values(|x: RouteRow| x@), endpoints_view(plugins@)).1;
            match r {
                Some(v) => v@.len() > 0 && v@.map_values(|c: ResolvedRoute| c@) == out,
                None => out.len() == 0,
            }
        }),
{
    let ghost rv = rows@.map_values(|x: RouteRow| x@);
    let ghost ev = endpoints_view(plugins@);
    let mut seen: Vec<String> = Vec::new();
    let mut out: Vec<ResolvedRoute> = Vec::new();
    let mut i: usize = 0;
    proof {
        assert(rv.take(0) =~= Seq::<RouteRowV>::empty());
        assert(seen@.map_values(|t: String| t@) =~= Seq::<Seq<char>>::empty());
        assert(out@.map_values(|c: ResolvedRoute| c@) =~= Seq::<ResolvedRouteV>::empty());
    }
    while i < rows.len()
        invariant
            i <= rows@.len(),
            rv == rows@.map_values(|x: RouteRow| x@),
            ev == endpoints_view(plugins@),
            (seen@.map_values(|t: String| t@), out@.map_values(|c: ResolvedRoute| c@))
                == candidates_fold(rv.take(i as int), ev),
        decreases rows@.len() - i,
    {
        proof {
            assert(rv.take(i as int + 1).drop_last() =~= rv.take(i as int));
            assert(rv.take(i as int + 1).last() == rows@[i as int]@);
        }
        let row = &rows[i];
        if !contains_string(&seen, row.provider_id.as_str()) {
            let ghost s0 = seen@.map_values(|t: String| t@);
            seen.push(row.provider_id.clone());
            proof {
                assert(seen@.map_values(|t: String| t@) =~= s0.push(row.provider_id@));
            }
            match route_of_row_exec(row, plugins) {
                Some(c) => {
                    let ghost o0 = out@.map_values(|c: ResolvedRoute| c@);
                    let ghost cv = c@;
                    out.push(c);
                    proof {
                        assert(out@.map_values(|c: ResolvedRoute| c@) =~= o0.push(cv));
                    }
                },
                None => {},
            }
        }
        i = i + 1;
    }
    proof {
        assert(rv.take(i as int) =~= rv);
    }
    if out.len() == 0 {
        None
    } else {
        Some(out)
    }
}

/// The route of the first row (the alias query reads one row), `None` where
/// there is none or its plugin is offline.
pub fn resolve_route(rows: &Vec<RouteRow>, plugins: &Vec<PluginEndpoint>) -> (r: Option<ResolvedRoute>)
    ensures
        match r {
            Some(c) => rows@.len() > 0 && route_of_row(rows@[0]@, endpoints_view(plugins@)) == Some(c@),
            None => rows@.len() == 0 || route_of_row(rows@[0]@, endpoints_view(plugins@)) is None,
        },
{
    if rows.len() == 0 {
        None
    } else {
        route_of_row_exec(&rows[0], plugins)
    }
}

/// The upstream candidates of a request, and how to try them.
pub struct CandidateSet {
    pub candidates: Vec<ResolvedRoute>,
    /// Whether a failing candidate hands over to the next one.
    pub failover: bool,
    /// Whether the alias named a combo.
    pub is_combo: bool,
}

pub open spec fn routes_view(v: Seq<ResolvedRoute>) -> Seq<ResolvedRouteV> {
    v.map_values(|c: ResolvedRoute| c@)
}

/// The candidates of a plain alias: every provider's route with failover,
/// else the first row's route alone.
pub open spec fn alias_candidates(rows: Seq<RouteRowV>, plugins: Seq<(Seq<char>, Seq<char>, Seq<char>)>, global_failover: bool) -> Seq<ResolvedRouteV> {
    if global_failover {
        candidates_fold(rows, plugins).1
    } else if rows.len() > 0 {
        match route_of_row(rows[0], plugins) {
            Some(c) => seq![c],
            None => Seq::empty(),
        }
    } else {
        Seq::empty()
    }
}

/// Chooses the candidates of a request: a combo's resolved members (always
/// with failover) where the alias names a combo, else the alias's routes
/// (with failover as configured); `None` where there is none, which is
/// answered `400 Model not found or not available`.
pub fn resolve_candidates(
    combo: Option<Vec<ResolvedRoute>>,
    global_failover: bool,
    rows: &Vec<RouteRow>,
    plugins: &Vec<PluginEndpoint>,
) -> (r: Option<CandidateSet>)
    ensures
        match combo {
            Some(cs) => match r {
                Some(set) => cs@.len() > 0 && routes_view(set.candidates@) == routes_view(cs@)
                    && set.failover && set.is_combo,
                None => cs@.len() == 0,
            },
            None => {
                let routed = alias_candidates(
                    rows@.map_values(|x: RouteRow| x@),
                    endpoints_view(plugins@),
                    global_failover,
                );
                match r {
                    Some(set) => routed.len() > 0 && routes_view(set.candidates@) == routed
                        && set.failover == global_failover && !set.is_combo,
                    None => routed.len() == 0,
                }
            },
        },
{
    match combo {
        Some(cs) => {
            if cs.len() == 0 {
                None
            } else {
                Some(CandidateSet { candidates: cs, failover: true, is_combo: true })
            }
        },
        None => {
            if global_failover {
                match resolve_route_candidates(rows, plugins) {
                    Some(v) => Some(CandidateSet { candidates: v, failover: true, is_combo: false }),
                    None => None,
                }
            } else {
                match resolve_route(rows, plugins) {
                    Some(c) => {
                        let ghost cv = c@;
                        let v = vec![c];
                        proof {
                            assert(routes_view(v@) =~= seq![cv]);
                        }
                        Some(CandidateSet { candidates: v, failover: false, is_combo: false })
                    },
                    None => None,
                }
            }
        },
    }
}

/// The error document of a model that cannot be routed.
pub fn model_not_found_body() -> (r: crate::json::Json)
    ensures
        r@ == crate::json::jobj(
            seq![("error"@, crate::json::jobj(
                seq![
                    ("type"@, JsonV::Str("invalid_request_error"@)),
                    ("message"@, JsonV::Str("Model not found or not available"@)),
                ],
            ))],
        ),
{
    let mut inner: Vec<(String, crate::json::Json)> = Vec::new();
    crate::json::push_field(&mut inner, "type", crate::json::json_string("invalid_request_error"));
    crate::json::push_field(&mut inner, "message", crate::json::json_string("Model not found or not available"));
    let mut outer: Vec<(String, crate::json::Json)> = Vec::new();
    crate::json::push_field(&mut outer, "error", crate::json::object_of(inner));
    proof {
        assert(crate::json::fields_view(inner@) =~= seq![
            ("type"@, JsonV::Str("invalid_request_error"@)),
            ("message"@, JsonV::Str("Model not found or not available"@)),
        ]);
        assert(crate::json::fields_view(outer@) =~= seq![("error"@, crate::json::jobj(crate::json::fields_view(inner@)))]);
    }
    crate::json::object_of(outer)
}

proof fn lemma_candidates_seen(rows: Seq<RouteRowV>, eps: Seq<(Seq<char>, Seq<char>, Seq<char>)>)
    ensures
        ({
            let (seen, out) = candidates_fold(rows, eps);
            &&& forall|i: int| 0 <= i < out.len() ==> seen.contains(#[trigger] out[i].provider_id)
            &&& forall|i: int, j: int|
                0 <= i < j < out.len() ==> #[trigger] out[i].provider_id != #[trigger] out[j].provider_id
        }),
    decreases rows.len(),
{
    if rows.len() > 0 {
        lemma_candidates_seen(rows.drop_last(), eps);
        let (seen, out) = candidates_fold(rows.drop_last(), eps);
        let r = rows.last();
        if !seen.contains(r.provider_id) {
            let seen2 = seen.push(r.provider_id);
            assert forall|i: int| 0 <= i < out.len() implies seen2.contains(#[trigger] out[i].provider_id) by {
                let k = choose|k: int| 0 <= k < seen.len() && seen[k] == out[i].provider_id;
                assert(seen2[k] == out[i].provider_id);
            }
            assert(seen2[seen.len() as int] == r.provider_id);
        }
    }
}

/// Each provider is tried at most once: the candidates of an alias have
/// distinct providers.
pub proof fn law_candidates_distinct_providers(rows: Seq<RouteRowV>, eps: Seq<(Seq<char>, Seq<char>, Seq<char>)>)
    ensures
        forall|i: int, j: int|
            0 <= i < j < candidates_fold(rows, eps).1.len() ==> #[trigger] candidates_fold(rows, eps).1[i].provider_id
                != #[trigger] candidates_fold(rows, eps).1[j].provider_id,
{
    lemma_candidates_seen(rows, eps);
}

} // verus!
