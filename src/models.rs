use vstd::prelude::*;

verus! {

/// The models this fixture answers for. A call naming any other model is
/// rejected before the store is touched.
pub open spec fn is_known_model_spec(name: Seq<char>) -> bool {
    name == "acronym_detector"@ || name == "document_classifier"@ || name == "sentence_embed"@
        || name == "ner"@ || name == "keybert"@ || name == "ingestor"@
        || name == "coreference_resolution"@ || name == "cross_encoder"@ || name == "llama_7b"@
        || name == "mistral_7b_instruct"@
}

/// The backend port that serves `name` in record mode, if any.
pub open spec fn backend_port_spec(name: Seq<char>) -> Option<Seq<char>> {
    if name == "cross_encoder"@ || name == "coreference_resolution"@ {
        Some("8304"@)
    } else if name == "llama_7b"@ {
        Some("8305"@)
    } else if name == "mistral_7b_instruct"@ {
        Some("8307"@)
    } else {
        None
    }
}

/// Compares two strings by their characters.
pub fn same_text(a: &str, b: &str) -> (r: bool)
    ensures
        r == (a@ == b@),
{
    let x = a.to_owned();
    let y = b.to_owned();
    x == y
}

/// Whether `name` belongs to the fixed set of known models.
pub fn is_known_model(name: &str) -> (r: bool)
    ensures
        r == is_known_model_spec(name@),
{
    same_text(name, "acronym_detector") || same_text(name, "document_classifier")
        || same_text(name, "sentence_embed") || same_text(name, "ner")
        || same_text(name, "keybert") || same_text(name, "ingestor")
        || same_text(name, "coreference_resolution") || same_text(name, "cross_encoder")
        || same_text(name, "llama_7b") || same_text(name, "mistral_7b_instruct")
}

/// Liveness: the fixture is always live.
pub fn server_live() -> (r: bool)
    ensures
        r,
{
    true
}

/// Readiness: the fixture is always ready.
pub fn server_ready() -> (r: bool)
    ensures
        r,
{
    true
}

/// Per-model readiness: a model is ready exactly when it is known.
pub fn model_ready(name: &str) -> (r: bool)
    ensures
        r == is_known_model_spec(name@),
{
    is_known_model(name)
}

/// The port of the backend that records traffic for `name`.
pub fn backend_port(name: &str) -> (r: Option<&'static str>)
    ensures
        match r {
            Some(p) => backend_port_spec(name@) == Some(p@),
            None => backend_port_spec(name@) is None,
        },
{
    if same_text(name, "cross_encoder") || same_text(name, "coreference_resolution") {
        Some("8304")
    } else if same_text(name, "llama_7b") {
        Some("8305")
    } else if same_text(name, "mistral_7b_instruct") {
        Some("8307")
    } else {
        None
    }
}

/// The models that have a backend in record mode, in the order they are dialed.
pub fn backend_models() -> (r: Vec<&'static str>)
    ensures
        r@.len() == 4,
        forall|i: int| 0 <= i < 4 ==> (#[trigger] backend_port_spec(r@[i]@)) is Some,
        r@[0]@ == "cross_encoder"@,
        r@[1]@ == "coreference_resolution"@,
        r@[2]@ == "llama_7b"@,
        r@[3]@ == "mistral_7b_instruct"@,
{
    let mut v: Vec<&'static str> = Vec::new();
    v.push("cross_encoder");
    v.push("coreference_resolution");
    v.push("llama_7b");
    v.push("mistral_7b_instruct");
    v
}

/// The ports this fixture listens on; each serves the same store.
pub fn server_ports() -> (r: Vec<u16>)
    ensures
        r@ == seq![8004u16, 8005u16, 8007u16],
{
    let mut v: Vec<u16> = Vec::new();
    v.push(8004);
    v.push(8005);
    v.push(8007);
    v
}

/// The address of a backend: `http://<host>:<port>`.
pub fn backend_address(host: &str, port: &str) -> (r: String)
    ensures
        r@ == "http://"@ + host@ + ":"@ + port@,
{
    let mut s = "http://".to_owned();
    s.append(host);
    s.append(":");
    s.append(port);
    s
}

/// The archive file name selected by an operator-supplied suffix.
pub fn recording_filename(suffix: &str) -> (r: String)
    ensures
        r@ == "triton-mock-recording-"@ + suffix@ + ".json.gz"@,
{
    let mut s = "triton-mock-recording-".to_owned();
    s.append(suffix);
    s.append(".json.gz");
    s
}

} // verus!
