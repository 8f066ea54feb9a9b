//! The static metadata of the server.
use crate::error::PollError;
use crate::model::snapshot::ServerMeta;
use crate::num::Num;
use crate::text::{cat, same};
use serde_json::Value;
use vstd::prelude::*;
use vstd::string::*;

verus! {

/// A value of a JSON object, as far as it is of use.
#[derive(Debug)]
pub enum Scalar {
    Text(String),
    Flag(bool),
    /// A number that is a count.
    Count(u64),
    /// Anything else.
    Other,
}

/// What a value is.
pub enum ScalarView {
    Text(Seq<char>),
    Flag(bool),
    Count(u64),
    Other,
}

impl View for Scalar {
    type V = ScalarView;

    open spec fn view(&self) -> ScalarView {
        match self {
            Scalar::Text(s) => ScalarView::Text(s@),
            Scalar::Flag(b) => ScalarView::Flag(*b),
            Scalar::Count(n) => ScalarView::Count(*n),
            Scalar::Other => ScalarView::Other,
        }
    }
}

/// The fields of an object.
pub type FieldsView = Seq<(Seq<char>, ScalarView)>;

/// The fields of an object.
pub open spec fn fields_view(v: Seq<(String, Scalar)>) -> FieldsView {
    v.map_values(|f: (String, Scalar)| (f.0@, f.1@))
}

/// The fields of an object, or the message of the failure.
pub open spec fn outcome_view(r: Result<Vec<(String, Scalar)>, String>) -> Result<
    FieldsView,
    Seq<char>,
> {
    match r {
        Ok(v) => Ok(fields_view(v@)),
        Err(e) => Err(e@),
    }
}

/// The fields at the top of a JSON text, none where it is no object; or what is wrong
/// with the text.
pub uninterp spec fn json_fields(text: Seq<char>) -> Result<FieldsView, Seq<char>>;

/// `serde_json::from_str` into a value: the fields of the object at its top, each a
/// text, a flag, a number that is a count, or something else; no field where the value
/// is no object. A failure is the error's message.
#[verifier::external_body]
fn read_fields(text: &str) -> (r: Result<Vec<(String, Scalar)>, String>)
    ensures
        outcome_view(r) == json_fields(text@),
{
    let scalar = |v: Value| match v {
        Value::String(s) => Scalar::Text(s),
        Value::Bool(b) => Scalar::Flag(b),
        Value::Number(n) => n.as_u64().map_or(Scalar::Other, Scalar::Count),
        _ => Scalar::Other,
    };
    match serde_json::from_str::<Value>(text) {
        Ok(Value::Object(map)) => Ok(map.into_iter().map(|(k, v)| (k, scalar(v))).collect()),
        Ok(_) => Ok(Vec::new()),
        Err(e) => Err(e.to_string()),
    }
}

// ---- fields ----

/// The value of the first field of a name.
pub open spec fn field(f: FieldsView, key: Seq<char>) -> Option<ScalarView>
    decreases f.len(),
{
    if f.len() == 0 {
        None
    } else if f[0].0 == key {
        Some(f[0].1)
    } else {
        field(f.drop_first(), key)
    }
}

/// The text of a field; empty where there is none.
pub open spec fn text_field(f: FieldsView, key: Seq<char>) -> Seq<char> {
    match field(f, key) {
        Some(ScalarView::Text(s)) => s,
        _ => ""@,
    }
}

/// The flag of a field; off where there is none.
pub open spec fn flag_field(f: FieldsView, key: Seq<char>) -> bool {
    match field(f, key) {
        Some(ScalarView::Flag(b)) => b,
        _ => false,
    }
}

/// The count of a field.
pub open spec fn count_field(f: FieldsView, key: Seq<char>) -> Option<u64> {
    match field(f, key) {
        Some(ScalarView::Count(n)) => Some(n),
        _ => None,
    }
}

/// The count of a field by what fits 32 bits; nought where there is none.
pub open spec fn size_field(f: FieldsView, key: Seq<char>) -> int {
    match count_field(f, key) {
        Some(n) => (n % 0x1_0000_0000) as int,
        None => 0,
    }
}

/// The value of the first field of a name.
fn find<'a>(f: &'a Vec<(String, Scalar)>, key: &str) -> (r: Option<&'a Scalar>)
    ensures
        field(fields_view(f@), key@) == match r {
            Some(v) => Some(v@),
            None => None,
        },
{
    let ghost all = fields_view(f@);
    let n: usize = f.len();
    let mut i: usize = 0;
    assert(all.skip(0) =~= all);
    while i < n
        invariant
            i <= n,
            n == f@.len(),
            all == fields_view(f@),
            field(all, key@) == field(all.skip(i as int), key@),
        decreases n - i,
    {
        assert(all.skip(i as int).drop_first() =~= all.skip(i + 1));
        if same(f[i].0.as_str(), key) {
            return Some(&f[i].1);
        }
        i += 1;
    }
    None
}

fn find_text(f: &Vec<(String, Scalar)>, key: &str) -> (r: String)
    ensures
        r@ == text_field(fields_view(f@), key@),
{
    match find(f, key) {
        Some(Scalar::Text(s)) => s.clone(),
        _ => "".to_owned(),
    }
}

fn find_flag(f: &Vec<(String, Scalar)>, key: &str) -> (r: bool)
    ensures
        r == flag_field(fields_view(f@), key@),
{
    match find(f, key) {
        Some(Scalar::Flag(b)) => *b,
        _ => false,
    }
}

fn find_count(f: &Vec<(String, Scalar)>, key: &str) -> (r: Option<u64>)
    ensures
        r == count_field(fields_view(f@), key@),
{
    match find(f, key) {
        Some(Scalar::Count(n)) => Some(*n),
        _ => None,
    }
}

fn find_size(f: &Vec<(String, Scalar)>, key: &str) -> (r: u32)
    ensures
        r == size_field(fields_view(f@), key@),
{
    match find_count(f, key) {
        Some(n) => (n % 0x1_0000_0000) as u32,
        None => 0,
    }
}

// ---- metadata ----

/// What two objects say of the server.
pub open spec fn meta_read<N: Num>(m: ServerMeta<N>, model: FieldsView, server: FieldsView) -> bool {
    &&& m.model_path@ == text_field(model, "model_path"@)
    &&& m.served_model_name@ == text_field(model, "served_model_name"@)
    &&& m.version@ == text_field(server, "version"@)
    &&& m.tp_size == size_field(server, "tp_size"@)
    &&& m.pp_size == size_field(server, "pp_size"@)
    &&& m.dp_size == size_field(server, "dp_size"@)
    &&& m.enable_dp_attention == flag_field(server, "enable_dp_attention"@)
    &&& m.enable_metrics_for_all_schedulers == flag_field(
        server,
        "enable_metrics_for_all_schedulers"@,
    )
    &&& m.enable_hierarchical_cache == flag_field(server, "enable_hierarchical_cache"@)
    &&& m.disaggregation_mode@ == text_field(server, "disaggregation_mode"@)
    &&& m.max_total_num_tokens is None
    &&& m.context_len == count_field(server, "context_length"@)
    &&& m.loaded
    &&& m.startup_phases@.len() == 0
    &&& m.startup_graph_secs is None
    &&& m.startup_free_gpu_gb is None
}

/// Projects the two JSON objects onto the metadata. Missing keys stay at the default
/// (empty, off, nought), so that a partial answer still yields something usable. The
/// size of the pool is read from the metrics, not here.
pub fn meta_from<N: Num>(model: &Vec<(String, Scalar)>, server: &Vec<(String, Scalar)>) -> (r:
    ServerMeta<N>)
    ensures
        meta_read(r, fields_view(model@), fields_view(server@)),
{
    ServerMeta {
        model_path: find_text(model, "model_path"),
        served_model_name: find_text(model, "served_model_name"),
        version: find_text(server, "version"),
        tp_size: find_size(server, "tp_size"),
        pp_size: find_size(server, "pp_size"),
        dp_size: find_size(server, "dp_size"),
        enable_dp_attention: find_flag(server, "enable_dp_attention"),
        enable_metrics_for_all_schedulers: find_flag(server, "enable_metrics_for_all_schedulers"),
        enable_hierarchical_cache: find_flag(server, "enable_hierarchical_cache"),
        disaggregation_mode: find_text(server, "disaggregation_mode"),
        max_total_num_tokens: None,
        context_len: find_count(server, "context_length"),
        loaded: true,
        startup_phases: Vec::new(),
        startup_graph_secs: None,
        startup_free_gpu_gb: None,
    }
}

/// Whether `r` is what two parsed texts say: the metadata, or the failure of the first
/// of them that is wrong.
pub open spec fn meta_outcome<N: Num>(
    r: Result<ServerMeta<N>, PollError>,
    model: Result<FieldsView, Seq<char>>,
    server: Result<FieldsView, Seq<char>>,
) -> bool {
    match (model, server) {
        (Ok(m), Ok(s)) => match r {
            Ok(meta) => meta_read(meta, m, s),
            Err(_) => false,
        },
        (Err(e), _) => match r {
            Err(PollError::Decode(t)) => t@ == "model_info: "@ + e,
            _ => false,
        },
        (Ok(_), Err(e)) => match r {
            Err(PollError::Decode(t)) => t@ == "server_info: "@ + e,
            _ => false,
        },
    }
}

/// The metadata of two parsed texts.
pub fn decode<N: Num>(
    model: Result<Vec<(String, Scalar)>, String>,
    server: Result<Vec<(String, Scalar)>, String>,
) -> (r: Result<ServerMeta<N>, PollError>)
    ensures
        meta_outcome(r, outcome_view(model), outcome_view(server)),
{
    let model = match model {
        Ok(m) => m,
        Err(e) => {
            return Err(PollError::Decode(cat("model_info: ", e.as_str())));
        },
    };
    let server = match server {
        Ok(s) => s,
        Err(e) => {
            return Err(PollError::Decode(cat("server_info: ", e.as_str())));
        },
    };
    Ok(meta_from(&model, &server))
}

/// The metadata of the bodies of `/model_info` and `/server_info`.
pub fn read_meta<N: Num>(model: &str, server: &str) -> (r: Result<ServerMeta<N>, PollError>)
    ensures
        meta_outcome(r, json_fields(model@), json_fields(server@)),
{
    decode(read_fields(model), read_fields(server))
}

}
