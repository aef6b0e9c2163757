//! The decisions of the proxy's entry points: which credential a request
//! carries, whether its service key admits its model, how the request is
//! prepared for the upstream, and the model list a key may see.

use vstd::prelude::*;
use crate::ir::{system_view, IrRequest, IrSystemBlock, IrSystemContent, RequestV, SystemV};
use crate::json::{jobj, jstr, Json, JsonV};
use crate::text::seq_starts_with;

verus! {

/// The token of an `Authorization` value of the form `Bearer <token>`.
pub open spec fn bearer_token(auth: Option<Seq<char>>) -> Option<Seq<char>> {
    match auth {
        Some(a) => if seq_starts_with(a, "Bearer "@) {
            Some(a.skip(7))
        } else {
            None
        },
        None => None,
    }
}

/// The credential of a request: Anthropic clients send `x-api-key` first
/// and a bearer token second, OpenAI clients the other way round; none is
/// the empty key.
pub open spec fn api_key_spec(
    x_api_key: Option<Seq<char>>,
    authorization: Option<Seq<char>>,
    x_api_key_first: bool,
) -> Seq<char> {
    let bearer = bearer_token(authorization);
    let (first, second) = if x_api_key_first {
        (x_api_key, bearer)
    } else {
        (bearer, x_api_key)
    };
    match first {
        Some(k) => k,
        None => match second {
            Some(k) => k,
            None => Seq::empty(),
        },
    }
}

fn bearer_of(authorization: Option<&str>) -> (r: Option<String>)
    ensures
        opt_view(r) == bearer_token(opt_str(authorization)),
{
    match authorization {
        Some(a) => {
            proof {
                reveal_strlit("Bearer ");
            }
            if crate::text::starts_with(a, "Bearer ") {
                Some(crate::text::substring(a, 7, a.unicode_len()))
            } else {
                None
            }
        },
        None => None,
    }
}

pub open spec fn opt_str(o: Option<&str>) -> Option<Seq<char>> {
    match o {
        Some(s) => Some(s@),
        None => None,
    }
}

pub open spec fn opt_view(o: Option<String>) -> Option<Seq<char>> {
    match o {
        Some(s) => Some(s@),
        None => None,
    }
}

/// The credential a request carries, from its `x-api-key` and
/// `Authorization` headers (each absent where missing or not text).
pub fn api_key_of(x_api_key: Option<&str>, authorization: Option<&str>, x_api_key_first: bool) -> (r: String)
    ensures
        r@ == api_key_spec(opt_str(x_api_key), opt_str(authorization), x_api_key_first),
{
    let bearer = bearer_of(authorization);
    let x = match x_api_key {
        Some(k) => Some(k.to_owned()),
        None => None,
    };
    let (first, second) = if x_api_key_first {
        (x, bearer)
    } else {
        (bearer, x)
    };
    match first {
        Some(k) => k,
        None => match second {
            Some(k) => k,
            None => String::new(),
        },
    }
}

/// Why the proxy refuses a request before it reaches an upstream.
#[derive(Debug, Clone, Copy, PartialEq, Eq, Structural)]
pub enum ProxyReject {
    /// No service key matches the credential (401).
    InvalidKey,
    /// The service key does not allow the model (403).
    ModelNotAllowed,
}

impl ProxyReject {
    pub open spec fn status_spec(self) -> u16 {
        match self {
            ProxyReject::InvalidKey => 401,
            ProxyReject::ModelNotAllowed => 403,
        }
    }

    pub open spec fn body_spec(self) -> JsonV {
        let (t, m) = match self {
            ProxyReject::InvalidKey => ("authentication_error"@, "Invalid API key"@),
            ProxyReject::ModelNotAllowed => ("forbidden"@, "Model not allowed for this service key"@),
        };
        jobj(seq![("error"@, jobj(seq![("type"@, jstr(t)), ("message"@, jstr(m))]))])
    }

    /// The HTTP status of the refusal.
    pub fn status(&self) -> (r: u16)
        ensures
            r == self.status_spec(),
    {
        match self {
            ProxyReject::InvalidKey => 401,
            ProxyReject::ModelNotAllowed => 403,
        }
    }

    /// The error document of the refusal.
    pub fn body(&self) -> (r: Json)
        ensures
            r@ == self.body_spec(),
    {
        let (t, m) = match self {
            ProxyReject::InvalidKey => ("authentication_error", "Invalid API key"),
            ProxyReject::ModelNotAllowed => ("forbidden", "Model not allowed for this service key"),
        };
        let mut inner: Vec<(String, Json)> = Vec::new();
        crate::json::push_field(&mut inner, "type", crate::json::json_string(t));
        crate::json::push_field(&mut inner, "message", crate::json::json_string(m));
        let mut outer: Vec<(String, Json)> = Vec::new();
        crate::json::push_field(&mut outer, "error", crate::json::object_of(inner));
        proof {
            let w = self.body_spec()->Object_0;
            assert(crate::json::fields_view(inner@) =~= w[0].1->Object_0);
            assert(crate::json::fields_view(outer@) =~= w);
        }
        crate::json::object_of(outer)
    }
}

/// Whether a service key with this whitelist may use the model: an empty
/// whitelist allows every model.
pub open spec fn model_allowed(allowed: Seq<Seq<char>>, model: Seq<char>) -> bool {
    allowed.len() == 0 || allowed.contains(model)
}

pub open spec fn strings_view(v: Seq<String>) -> Seq<Seq<char>> {
    v.map_values(|s: String| s@)
}

/// The system prompt with the session's injected text: appended to a text
/// prompt after a newline, added as a last block, or made the prompt; an
/// empty injection changes nothing.
pub open spec fn inject_system(s: Option<SystemV>, inject: Seq<char>) -> Option<SystemV> {
    if inject.len() == 0 {
        s
    } else {
        match s {
            Some(SystemV::Text(t)) => Some(SystemV::Text(t + "\n"@ + inject)),
            Some(SystemV::Blocks(bs)) => Some(SystemV::Blocks(bs.push((inject, None)))),
            None => Some(SystemV::Text(inject)),
        }
    }
}

/// A request let through: prepared for the upstream, which is always asked
/// to stream, and whether the client itself asked for a stream.
pub struct Admitted {
    pub ir_request: IrRequest,
    pub client_wants_stream: bool,
}

/// The upstream request made from an admitted one.
pub open spec fn prepared_request(r: RequestV, inject: Seq<char>) -> RequestV {
    RequestV { stream: true, system: inject_system(r.system, inject), ..r }
}

/// Admits a request whose service key allows its model, and prepares it.
pub fn admit_request(req: IrRequest, allowed_models: &Vec<String>, session_inject: &str) -> (r: Result<
    Admitted,
    ProxyReject,
>)
    ensures
        match r {
            Ok(a) => model_allowed(strings_view(allowed_models@), req@.model)
                && a.client_wants_stream == req@.stream
                && a.ir_request@ == prepared_request(req@, session_inject@),
            Err(e) => !model_allowed(strings_view(allowed_models@), req@.model)
                && e == ProxyReject::ModelNotAllowed,
        },
{
    let ghost av = strings_view(allowed_models@);
    if allowed_models.len() > 0 {
        let mut found = false;
        let mut i: usize = 0;
        while i < allowed_models.len()
            invariant
                i <= allowed_models@.len(),
                av == strings_view(allowed_models@),
                found <==> exists|k: int| 0 <= k < i && av[k] == req@.model,
            decreases allowed_models@.len() - i,
        {
            proof {
                assert(av[i as int] == allowed_models@[i as int]@);
            }
            if crate::json::str_eq(allowed_models[i].as_str(), req.model.as_str()) {
                found = true;
            }
            i = i + 1;
        }
        if !found {
            proof {
                assert forall|k: int| 0 <= k < av.len() implies av[k] != req@.model by {}
                assert(!av.contains(req@.model));
            }
            return Err(ProxyReject::ModelNotAllowed);
        }
        proof {
            let k = choose|k: int| 0 <= k < i && av[k] == req@.model;
            assert(av.contains(req@.model));
        }
    }
    let ghost r0 = req@;
    let mut req = req;
    let client_wants_stream = req.stream;
    req.stream = true;
    if session_inject.unicode_len() > 0 {
        let mut system: Option<IrSystemContent> = None;
        std::mem::swap(&mut system, &mut req.system);
        let new_system = match system {
            Some(IrSystemContent::Text(mut t)) => {
                t.append("\n");
                t.append(session_inject);
                proof {
                    reveal_strlit("\n");
                }
                IrSystemContent::Text(t)
            },
            Some(IrSystemContent::Blocks(mut bs)) => {
                let ghost before = bs@;
                bs.push(IrSystemBlock { text: session_inject.to_owned(), cache_control: None });
                proof {
                    assert(bs@.map_values(
                        |b: IrSystemBlock| (b.text@, crate::json::opt_json_view(b.cache_control)),
                    ) =~= before.map_values(
                        |b: IrSystemBlock| (b.text@, crate::json::opt_json_view(b.cache_control)),
                    ).push((session_inject@, None)));
                }
                IrSystemContent::Blocks(bs)
            },
            None => IrSystemContent::Text(session_inject.to_owned()),
        };
        req.system = Some(new_system);
    }
    proof {
        assert(req@ == prepared_request(r0, session_inject@));
    }
    Ok(Admitted { ir_request: req, client_wants_stream })
}

// ---- the model list ----

/// The strings of a JSON text that is an array of strings; nothing for any
/// other text.
pub open spec fn string_list_spec(text: Seq<char>) -> Seq<Seq<char>> {
    match crate::json::json_text_value(text) {
        Some(JsonV::Array(items)) => if forall|i: int| 0 <= i < items.len() ==> #[trigger] items[i] is Str {
            items.map_values(|x: JsonV| x->Str_0)
        } else {
            Seq::empty()
        },
        _ => Seq::empty(),
    }
}

/// Reads a stored list of strings (a JSON array of strings); anything else
/// reads as the empty list.
pub fn string_list_of(text: &str) -> (r: Vec<String>)
    ensures
        strings_view(r@) == string_list_spec(text@),
{
    let empty: Vec<String> = Vec::new();
    proof {
        assert(strings_view(empty@) =~= Seq::<Seq<char>>::empty());
    }
    let parsed = crate::json::parse_json(text);
    let items = match parsed {
        Some(Json::Array(items)) => items,
        _ => {
            return empty;
        },
    };
    let ghost iv = crate::json::items_view(items@);
    proof {
        crate::json::lemma_items_view_len(items@);
        assert(crate::json::json_text_value(text@) == Some(JsonV::Array(iv)));
    }
    let mut out: Vec<String> = Vec::new();
    let mut i: usize = 0;
    while i < items.len()
        invariant
            i <= items@.len(),
            iv == crate::json::items_view(items@),
            iv.len() == items@.len(),
            crate::json::json_text_value(text@) == Some(JsonV::Array(iv)),
            forall|k: int| 0 <= k < i ==> #[trigger] iv[k] is Str,
            strings_view(out@) == iv.take(i as int).map_values(|x: JsonV| x->Str_0),
        decreases items@.len() - i,
    {
        proof {
            crate::json::lemma_items_view_index(items@, i as int);
        }
        match &items[i] {
            Json::Str(t) => {
                let ghost before = strings_view(out@);
                out.push(t.clone());
                proof {
                    assert(strings_view(out@) =~= before.push(t@));
                    assert(iv.take(i as int + 1).map_values(|x: JsonV| x->Str_0) =~= iv.take(
                        i as int,
                    ).map_values(|x: JsonV| x->Str_0).push(t@));
                }
            },
            _ => {
                proof {
                    assert(!(iv[i as int] is Str));
                    assert(!(forall|k: int| 0 <= k < iv.len() ==> #[trigger] iv[k] is Str));
                }
                let none: Vec<String> = Vec::new();
                proof {
                    assert(strings_view(none@) =~= Seq::<Seq<char>>::empty());
                }
                return none;
            },
        }
        i = i + 1;
    }
    proof {
        assert(iv.take(i as int) =~= iv);
    }
    out
}

/// An enabled model of an enabled provider, as stored.
pub struct ModelRow {
    pub display_name: String,
    pub tier: String,
    /// The provider's name.
    pub owned_by: String,
    pub context_window: i64,
    pub max_output_tokens: i64,
    /// The capabilities, as the stored JSON text.
    pub capabilities: String,
}

/// An enabled combo, as stored.
pub struct ComboRow {
    pub name: String,
    pub created_at: i64,
}

/// The creation time reported for every model.
pub const MODEL_CREATED: i64 = 1699000000;

pub open spec fn model_entry(m: ModelRow) -> JsonV {
    jobj(
        seq![
            ("id"@, jstr(m.display_name@)),
            ("object"@, jstr("model"@)),
            ("created"@, JsonV::Int(MODEL_CREATED as int)),
            ("owned_by"@, jstr(m.owned_by@)),
            ("display_name"@, jstr(m.display_name@)),
            ("tier"@, jstr(m.tier@)),
            ("context_window"@, JsonV::Int(m.context_window as int)),
            ("max_output_tokens"@, JsonV::Int(m.max_output_tokens as int)),
            ("capabilities"@, JsonV::Array(
                string_list_spec(m.capabilities@).map_values(|c: Seq<char>| jstr(c)),
            )),
        ],
    )
}

pub open spec fn combo_entry(c: ComboRow) -> JsonV {
    jobj(
        seq![
            ("id"@, jstr(c.name@)),
            ("object"@, jstr("model"@)),
            ("created"@, JsonV::Int(c.created_at as int)),
            ("owned_by"@, jstr("combo"@)),
            ("display_name"@, jstr(c.name@)),
            ("tier"@, jstr("combo"@)),
            ("context_window"@, JsonV::Int(0)),
            ("max_output_tokens"@, JsonV::Int(0)),
            ("capabilities"@, JsonV::Array(Seq::empty())),
        ],
    )
}

/// The entries of the models the whitelist allows, in order.
pub open spec fn listed_models(ms: Seq<ModelRow>, allowed: Seq<Seq<char>>) -> Seq<JsonV>
    decreases ms.len(),
{
    if ms.len() == 0 {
        Seq::empty()
    } else {
        let rest = listed_models(ms.drop_last(), allowed);
        if model_allowed(allowed, ms.last().display_name@) {
            rest.push(model_entry(ms.last()))
        } else {
            rest
        }
    }
}

/// The entries of the combos the whitelist allows, in order.
pub open spec fn listed_combos(cs: Seq<ComboRow>, allowed: Seq<Seq<char>>) -> Seq<JsonV>
    decreases cs.len(),
{
    if cs.len() == 0 {
        Seq::empty()
    } else {
        let rest = listed_combos(cs.drop_last(), allowed);
        if model_allowed(allowed, cs.last().name@) {
            rest.push(combo_entry(cs.last()))
        } else {
            rest
        }
    }
}

/// The model list: the models, then the combos, that the key may use.
pub open spec fn model_list_spec(ms: Seq<ModelRow>, cs: Seq<ComboRow>, allowed: Seq<Seq<char>>) -> JsonV {
    jobj(
        seq![
            ("object"@, jstr("list"@)),
            ("data"@, JsonV::Array(listed_models(ms, allowed) + listed_combos(cs, allowed))),
        ],
    )
}

fn allowed_exec(allowed: &Vec<String>, name: &str) -> (r: bool)
    ensures
        r == model_allowed(strings_view(allowed@), name@),
{
    if allowed.len() == 0 {
        return true;
    }
    let ghost av = strings_view(allowed@);
    let mut i: usize = 0;
    while i < allowed.len()
        invariant
            i <= allowed@.len(),
            av == strings_view(allowed@),
            forall|k: int| 0 <= k < i ==> av[k] != name@,
        decreases allowed@.len() - i,
    {
        proof {
            assert(av[i as int] == allowed@[i as int]@);
        }
        if crate::json::str_eq(allowed[i].as_str(), name) {
            proof {
                assert(av.contains(name@));
            }
            return true;
        }
        i = i + 1;
    }
    false
}

fn model_entry_exec(m: &ModelRow) -> (r: Json)
    ensures
        r@ == model_entry(*m),
{
    let caps = string_list_of(m.capabilities.as_str());
    let mut items: Vec<Json> = Vec::new();
    let mut i: usize = 0;
    while i < caps.len()
        invariant
            i <= caps@.len(),
            crate::json::items_view(items@) == strings_view(caps@).take(i as int).map_values(
                |c: Seq<char>| jstr(c),
            ),
        decreases caps@.len() - i,
    {
        let ghost before = items@;
        items.push(crate::json::json_string(caps[i].as_str()));
        proof {
            crate::json::lemma_items_view_push(before, items@.last());
            assert(items@ =~= before.push(items@.last()));
            assert(strings_view(caps@).take(i as int + 1).map_values(|c: Seq<char>| jstr(c))
                =~= strings_view(caps@).take(i as int).map_values(|c: Seq<char>| jstr(c)).push(
                jstr(caps@[i as int]@),
            ));
        }
        i = i + 1;
    }
    proof {
        assert(strings_view(caps@).take(i as int) =~= strings_view(caps@));
    }
    let mut f: Vec<(String, Json)> = Vec::new();
    crate::json::push_field(&mut f, "id", crate::json::json_string(m.display_name.as_str()));
    crate::json::push_field(&mut f, "object", crate::json::json_string("model"));
    crate::json::push_field(&mut f, "created", crate::json::json_i64(MODEL_CREATED));
    crate::json::push_field(&mut f, "owned_by", crate::json::json_string(m.owned_by.as_str()));
    crate::json::push_field(&mut f, "display_name", crate::json::json_string(m.display_name.as_str()));
    crate::json::push_field(&mut f, "tier", crate::json::json_string(m.tier.as_str()));
    crate::json::push_field(&mut f, "context_window", crate::json::json_i64(m.context_window));
    crate::json::push_field(&mut f, "max_output_tokens", crate::json::json_i64(m.max_output_tokens));
    crate::json::push_field(&mut f, "capabilities", crate::json::array_of(items));
    proof {
        assert(crate::json::fields_view(f@) =~= model_entry(*m)->Object_0);
    }
    crate::json::object_of(f)
}

fn combo_entry_exec(c: &ComboRow) -> (r: Json)
    ensures
        r@ == combo_entry(*c),
{
    let mut f: Vec<(String, Json)> = Vec::new();
    crate::json::push_field(&mut f, "id", crate::json::json_string(c.name.as_str()));
    crate::json::push_field(&mut f, "object", crate::json::json_string("model"));
    crate::json::push_field(&mut f, "created", crate::json::json_i64(c.created_at));
    crate::json::push_field(&mut f, "owned_by", crate::json::json_string("combo"));
    crate::json::push_field(&mut f, "display_name", crate::json::json_string(c.name.as_str()));
    crate::json::push_field(&mut f, "tier", crate::json::json_string("combo"));
    crate::json::push_field(&mut f, "context_window", crate::json::json_i64(0));
    crate::json::push_field(&mut f, "max_output_tokens", crate::json::json_i64(0));
    let caps: Vec<Json> = Vec::new();
    proof {
        assert(crate::json::items_view(caps@) =~= Seq::<JsonV>::empty());
    }
    crate::json::push_field(&mut f, "capabilities", crate::json::array_of(caps));
    proof {
        assert(crate::json::fields_view(f@) =~= combo_entry(*c)->Object_0);
    }
    crate::json::object_of(f)
}

/// The document of `GET /v1/models`: the enabled models and then the
/// enabled combos, each kept only where the key's whitelist allows it.
pub fn model_list_json(models: &Vec<ModelRow>, combos: &Vec<ComboRow>, allowed_models: &Vec<String>) -> (r: Json)
    ensures
        r@ == model_list_spec(models@, combos@, strings_view(allowed_models@)),
{
    let ghost av = strings_view(allowed_models@);
    let mut data: Vec<Json> = Vec::new();
    let mut i: usize = 0;
    while i < models.len()
        invariant
            i <= models@.len(),
            av == strings_view(allowed_models@),
            crate::json::items_view(data@) == listed_models(models@.take(i as int), av),
        decreases models@.len() - i,
    {
        proof {
            assert(models@.take(i as int + 1).drop_last() =~= models@.take(i as int));
        }
        if allowed_exec(allowed_models, models[i].display_name.as_str()) {
            let ghost before = data@;
            data.push(model_entry_exec(&models[i]));
            proof {
                crate::json::lemma_items_view_push(before, data@.last());
                assert(data@ =~= before.push(data@.last()));
            }
        }
        i = i + 1;
    }
    proof {
        assert(models@.take(i as int) =~= models@);
    }
    let ghost first = crate::json::items_view(data@);
    let mut k: usize = 0;
    while k < combos.len()
        invariant
            k <= combos@.len(),
            av == strings_view(allowed_models@),
            first == listed_models(models@, av),
            crate::json::items_view(data@) == first + listed_combos(combos@.take(k as int), av),
        decreases combos@.len() - k,
    {
        proof {
            assert(combos@.take(k as int + 1).drop_last() =~= combos@.take(k as int));
        }
        if allowed_exec(allowed_models, combos[k].name.as_str()) {
            let ghost before = data@;
            data.push(combo_entry_exec(&combos[k]));
            proof {
                crate::json::lemma_items_view_push(before, data@.last());
                assert(data@ =~= before.push(data@.last()));
                assert(first + listed_combos(combos@.take(k as int + 1), av) =~= (first + listed_combos(
                    combos@.take(k as int),
                    av,
                )).push(combo_entry(combos@[k as int])));
            }
        }
        k = k + 1;
    }
    proof {
        assert(combos@.take(k as int) =~= combos@);
    }
    let mut f: Vec<(String, Json)> = Vec::new();
    crate::json::push_field(&mut f, "object", crate::json::json_string("list"));
    crate::json::push_field(&mut f, "data", crate::json::array_of(data));
    proof {
        assert(crate::json::fields_view(f@) =~= model_list_spec(models@, combos@, av)->Object_0);
    }
    crate::json::object_of(f)
}

} // verus!
