//! The configuration document, its validation, and its compilation into bindings.
use vstd::prelude::*;

verus! {

#[verifier::external_type_specification]
#[verifier::external_body]
pub struct ExJsonValue(serde_json::Value);

/// Relies on the derived `Clone` of `serde_json::Value`: the copy is the same value.
pub assume_specification[ <serde_json::Value as Clone>::clone ](v: &serde_json::Value) -> (r: serde_json::Value)
    ensures
        r == *v,
;

/// One declarative rule: a chord of key names and, for `call_service`, the remote call.
pub struct ConfigEntry {
    pub kind: String,
    pub description: String,
    pub keys: Vec<String>,
    pub domain: Option<String>,
    pub service: Option<String>,
    pub payload: Option<serde_json::Value>,
}

/// The whole configuration document.
pub struct ConfigFile {
    pub host: String,
    pub port: u16,
    pub token: String,
    pub actions: Vec<ConfigEntry>,
}

/// A field that a `call_service` entry must carry.
#[derive(PartialEq, Eq, Structural, Clone, Copy, Debug)]
pub enum Field {
    Domain,
    Service,
    Payload,
}

/// Why a configuration document was rejected.
#[derive(Debug)]
pub enum ConfigError {
    /// The port is outside 1..=65535.
    InvalidPort,
    /// A key name of entry `entry` does not name a known key.
    InvalidKey { entry: usize, description: String, token: String },
    /// A `call_service` entry lacks a required field.
    MissingField { entry: usize, description: String, field: Field },
}

/// A compiled binding: a chord and the fully specified remote call it fires.
pub struct Binding<K> {
    pub chord: Vec<K>,
    pub domain: String,
    pub service: String,
    pub payload: serde_json::Value,
}

pub struct BindingView<K> {
    pub chord: Seq<K>,
    pub domain: Seq<char>,
    pub service: Seq<char>,
    pub payload: serde_json::Value,
}

impl<K> View for Binding<K> {
    type V = BindingView<K>;

    open spec fn view(&self) -> BindingView<K> {
        BindingView {
            chord: self.chord@,
            domain: self.domain@,
            service: self.service@,
            payload: self.payload,
        }
    }
}

/// A validated document, compiled: the bindings and the session parameters.
pub struct Setup<K> {
    pub bindings: Vec<Binding<K>>,
    pub host: String,
    pub port: u16,
    pub token: String,
}

pub open spec fn is_call_service(e: ConfigEntry) -> bool {
    e.kind@ == "call_service"@
}

/// `resolved[i][j]` is the key that the `j`-th key name of entry `i` resolves to.
pub open spec fn shaped<K>(c: ConfigFile, resolved: Seq<Vec<Option<K>>>) -> bool {
    &&& resolved.len() == c.actions@.len()
    &&& forall|i: int| 0 <= i < resolved.len() ==> #[trigger] resolved[i]@.len() == c.actions@[i].keys@.len()
}

/// The first of the first `n` resolutions that failed.
pub open spec fn first_unresolved<K>(r: Seq<Option<K>>, n: nat) -> Option<int>
    decreases n,
{
    if n == 0 {
        None
    } else {
        match first_unresolved(r, (n - 1) as nat) {
            Some(j) => Some(j),
            None => if r[n - 1].is_none() { Some(n - 1) } else { None },
        }
    }
}

/// What is wrong with entry `i` whose key names resolved to `r`, if anything:
/// key names first, then the fields of a `call_service` entry in order.
pub open spec fn entry_error<K>(e: ConfigEntry, r: Seq<Option<K>>, i: int) -> Option<ConfigError> {
    match first_unresolved(r, r.len()) {
        Some(j) => Some(ConfigError::InvalidKey { entry: i as usize, description: e.description, token: e.keys@[j] }),
        None => if !is_call_service(e) {
            None
        } else if e.domain.is_none() {
            Some(ConfigError::MissingField { entry: i as usize, description: e.description, field: Field::Domain })
        } else if e.service.is_none() {
            Some(ConfigError::MissingField { entry: i as usize, description: e.description, field: Field::Service })
        } else if e.payload.is_none() {
            Some(ConfigError::MissingField { entry: i as usize, description: e.description, field: Field::Payload })
        } else {
            None
        },
    }
}

/// The first error among the first `n` entries.
pub open spec fn first_error<K>(acts: Seq<ConfigEntry>, res: Seq<Vec<Option<K>>>, n: nat) -> Option<ConfigError>
    decreases n,
{
    if n == 0 {
        None
    } else {
        match first_error(acts, res, (n - 1) as nat) {
            Some(e) => Some(e),
            None => entry_error(acts[n - 1], res[n - 1]@, n - 1),
        }
    }
}

/// The verdict on a whole document.
pub open spec fn validation<K>(c: ConfigFile, res: Seq<Vec<Option<K>>>) -> Result<(), ConfigError> {
    if c.port == 0 {
        Err(ConfigError::InvalidPort)
    } else {
        match first_error(c.actions@, res, c.actions@.len()) {
            Some(e) => Err(e),
            None => Ok(()),
        }
    }
}

pub open spec fn chord_of<K>(r: Seq<Option<K>>) -> Seq<K> {
    r.map_values(|o: Option<K>| o.unwrap())
}

pub open spec fn binding_of<K>(e: ConfigEntry, r: Seq<Option<K>>) -> BindingView<K> {
    BindingView {
        chord: chord_of(r),
        domain: e.domain.unwrap()@,
        service: e.service.unwrap()@,
        payload: e.payload.unwrap(),
    }
}

/// The bindings of the first `n` entries: one per `call_service` entry, in order.
pub open spec fn compiled<K>(acts: Seq<ConfigEntry>, res: Seq<Vec<Option<K>>>, n: nat) -> Seq<BindingView<K>>
    decreases n,
{
    if n == 0 {
        Seq::empty()
    } else {
        let prev = compiled(acts, res, (n - 1) as nat);
        if is_call_service(acts[n - 1]) {
            prev.push(binding_of(acts[n - 1], res[n - 1]@))
        } else {
            prev
        }
    }
}

pub open spec fn views<K>(bs: Seq<Binding<K>>) -> Seq<BindingView<K>> {
    bs.map_values(|b: Binding<K>| b@)
}

fn is_call_service_kind(kind: &String) -> (r: bool)
    ensures
        r == (kind@ == "call_service"@),
{
    let name = "call_service".to_owned();
    *kind == name
}

/// Checks one entry whose key names resolved to `resolved`.
pub fn check_entry<K: Copy>(e: &ConfigEntry, resolved: &Vec<Option<K>>, index: usize) -> (r: Option<ConfigError>)
    requires
        resolved@.len() == e.keys@.len(),
    ensures
        r == entry_error(*e, resolved@, index as int),
{
    let mut j: usize = 0;
    while j < resolved.len()
        invariant
            j <= resolved@.len(),
            resolved@.len() == e.keys@.len(),
            first_unresolved(resolved@, j as nat).is_none(),
        decreases resolved@.len() - j,
    {
        if resolved[j].is_none() {
            assert(first_unresolved(resolved@, (j + 1) as nat) == Some(j as int));
            assert(first_unresolved(resolved@, resolved@.len()) == Some(j as int)) by {
                lemma_first_unresolved_stable(resolved@, (j + 1) as nat, resolved@.len());
            }
            return Some(ConfigError::InvalidKey { entry: index, description: e.description.clone(), token: e.keys[j].clone() });
        }
        j = j + 1;
    }
    if !is_call_service_kind(&e.kind) {
        None
    } else if e.domain.is_none() {
        Some(ConfigError::MissingField { entry: index, description: e.description.clone(), field: Field::Domain })
    } else if e.service.is_none() {
        Some(ConfigError::MissingField { entry: index, description: e.description.clone(), field: Field::Service })
    } else if e.payload.is_none() {
        Some(ConfigError::MissingField { entry: index, description: e.description.clone(), field: Field::Payload })
    } else {
        None
    }
}

proof fn lemma_first_unresolved_stable<K>(r: Seq<Option<K>>, m: nat, n: nat)
    requires
        m <= n,
        first_unresolved(r, m).is_some(),
    ensures
        first_unresolved(r, n) == first_unresolved(r, m),
    decreases n - m,
{
    if m < n {
        lemma_first_unresolved_stable(r, m, (n - 1) as nat);
    }
}

proof fn lemma_first_error_stable<K>(acts: Seq<ConfigEntry>, res: Seq<Vec<Option<K>>>, m: nat, n: nat)
    requires
        m <= n,
        first_error(acts, res, n).is_none(),
    ensures
        first_error(acts, res, m).is_none(),
    decreases n - m,
{
    if m < n {
        lemma_first_error_stable(acts, res, m, (n - 1) as nat);
    }
}

/// An entry of a valid document has every key resolved and, if it is a
/// `call_service` entry, every field present.
proof fn lemma_valid_entry<K>(acts: Seq<ConfigEntry>, res: Seq<Vec<Option<K>>>, i: int)
    requires
        0 <= i < acts.len(),
        first_error(acts, res, acts.len()).is_none(),
    ensures
        entry_error(acts[i], res[i]@, i).is_none(),
{
    lemma_first_error_stable(acts, res, (i + 1) as nat, acts.len());
}

proof fn lemma_all_resolved<K>(r: Seq<Option<K>>, j: int)
    requires
        0 <= j < r.len(),
        first_unresolved(r, r.len()).is_none(),
    ensures
        r[j].is_some(),
{
    if r[j].is_none() {
        assert(first_unresolved(r, (j + 1) as nat).is_some());
        lemma_first_unresolved_stable(r, (j + 1) as nat, r.len());
    }
}

/// Checks a document whose key names resolved to `resolved`: the first
/// error in entry order, or `Ok`.
pub fn validate<K: Copy>(config: &ConfigFile, resolved: &Vec<Vec<Option<K>>>) -> (r: Result<(), ConfigError>)
    requires
        shaped(*config, resolved@),
    ensures
        r == validation(*config, resolved@),
{
    if config.port == 0 {
        return Err(ConfigError::InvalidPort);
    }
    let mut i: usize = 0;
    while i < config.actions.len()
        invariant
            i <= config.actions@.len(),
            config.port != 0,
            shaped(*config, resolved@),
            first_error(config.actions@, resolved@, i as nat).is_none(),
        decreases config.actions@.len() - i,
    {
        let found = check_entry(&config.actions[i], &resolved[i], i);
        match found {
            Some(e) => {
                assert(first_error(config.actions@, resolved@, (i + 1) as nat) == Some(e));
                proof {
                    lemma_first_error_first(config.actions@, resolved@, (i + 1) as nat, config.actions@.len());
                }
                return Err(e);
            },
            None => {},
        }
        i = i + 1;
    }
    Ok(())
}

proof fn lemma_first_error_first<K>(acts: Seq<ConfigEntry>, res: Seq<Vec<Option<K>>>, m: nat, n: nat)
    requires
        m <= n,
        first_error(acts, res, m).is_some(),
    ensures
        first_error(acts, res, n) == first_error(acts, res, m),
    decreases n - m,
{
    if m < n {
        lemma_first_error_first(acts, res, m, (n - 1) as nat);
    }
}

/// The chord of a fully resolved list of key names.
fn chord<K: Copy>(resolved: &Vec<Option<K>>) -> (r: Vec<K>)
    requires
        first_unresolved(resolved@, resolved@.len()).is_none(),
    ensures
        r@ == chord_of(resolved@),
{
    let mut out: Vec<K> = Vec::new();
    let mut j: usize = 0;
    while j < resolved.len()
        invariant
            j <= resolved@.len(),
            first_unresolved(resolved@, resolved@.len()).is_none(),
            out@ == chord_of(resolved@.subrange(0, j as int)),
        decreases resolved@.len() - j,
    {
        proof {
            lemma_all_resolved(resolved@, j as int);
        }
        match resolved[j] {
            Some(k) => out.push(k),
            None => {},
        }
        assert(resolved@.subrange(0, j + 1) == resolved@.subrange(0, j as int).push(resolved@[j as int]));
        j = j + 1;
    }
    assert(resolved@.subrange(0, resolved@.len() as int) == resolved@);
    out
}

/// Compiles a valid document: one binding per `call_service` entry, in order.
pub fn compile<K: Copy>(config: &ConfigFile, resolved: &Vec<Vec<Option<K>>>) -> (r: Vec<Binding<K>>)
    requires
        shaped(*config, resolved@),
        validation(*config, resolved@) is Ok,
    ensures
        views(r@) == compiled(config.actions@, resolved@, config.actions@.len()),
{
    let mut out: Vec<Binding<K>> = Vec::new();
    let mut i: usize = 0;
    while i < config.actions.len()
        invariant
            i <= config.actions@.len(),
            shaped(*config, resolved@),
            first_error(config.actions@, resolved@, config.actions@.len()).is_none(),
            views(out@) == compiled(config.actions@, resolved@, i as nat),
        decreases config.actions@.len() - i,
    {
        let e = &config.actions[i];
        proof {
            lemma_valid_entry(config.actions@, resolved@, i as int);
        }
        if is_call_service_kind(&e.kind) {
            match (&e.domain, &e.service, &e.payload) {
                (Some(domain), Some(service), Some(payload)) => {
                    let b = Binding {
                        chord: chord(&resolved[i]),
                        domain: domain.clone(),
                        service: service.clone(),
                        payload: payload.clone(),
                    };
                    out.push(b);
                },
                _ => {},
            }
        }
        i = i + 1;
    }
    out
}

/// Validates a document and, when it is valid, compiles it.
pub fn parse_config<K: Copy>(config: &ConfigFile, resolved: &Vec<Vec<Option<K>>>) -> (r: Result<Setup<K>, ConfigError>)
    requires
        shaped(*config, resolved@),
    ensures
        validation(*config, resolved@) is Err ==> r == Err::<Setup<K>, ConfigError>(validation(*config, resolved@)->Err_0),
        validation(*config, resolved@) is Ok <==> r is Ok,
        r is Ok ==> {
            &&& views(r->Ok_0.bindings@) == compiled(config.actions@, resolved@, config.actions@.len())
            &&& r->Ok_0.host == config.host
            &&& r->Ok_0.port == config.port
            &&& r->Ok_0.token == config.token
        },
{
    match validate(config, resolved) {
        Err(e) => Err(e),
        Ok(()) => {
            let bindings = compile(config, resolved);
            Ok(Setup { bindings, host: config.host.clone(), port: config.port, token: config.token.clone() })
        },
    }
}

pub open spec fn call_entries(acts: Seq<ConfigEntry>) -> Seq<ConfigEntry> {
    acts.filter(|e: ConfigEntry| is_call_service(e))
}

proof fn lemma_compiled_prefix<K>(acts: Seq<ConfigEntry>, res: Seq<Vec<Option<K>>>, n: nat)
    requires
        n <= acts.len(),
    ensures
        compiled(acts, res, n).len() == call_entries(acts.subrange(0, n as int)).len(),
        forall|k: int| 0 <= k < compiled(acts, res, n).len() ==> {
            let b = #[trigger] compiled(acts, res, n)[k];
            let e = call_entries(acts.subrange(0, n as int))[k];
            &&& b.domain == e.domain.unwrap()@
            &&& b.service == e.service.unwrap()@
            &&& b.payload == e.payload.unwrap()
        },
    decreases n,
{
    let pre = acts.subrange(0, n as int);
    reveal_with_fuel(Seq::filter, 1);
    if n > 0 {
        lemma_compiled_prefix(acts, res, (n - 1) as nat);
        assert(pre.drop_last() == acts.subrange(0, n - 1));
        assert(pre.last() == acts[n - 1]);
    } else {
        assert(pre.len() == 0);
    }
}

/// A valid document with N `call_service` entries compiles to exactly N
/// bindings, the k-th carrying the call of the k-th such entry.
pub proof fn lemma_one_binding_per_call_service<K>(c: ConfigFile, res: Seq<Vec<Option<K>>>)
    requires
        shaped(c, res),
        validation(c, res) is Ok,
    ensures
        compiled(c.actions@, res, c.actions@.len()).len() == call_entries(c.actions@).len(),
        forall|k: int| 0 <= k < call_entries(c.actions@).len() ==> {
            let b = #[trigger] compiled(c.actions@, res, c.actions@.len())[k];
            let e = call_entries(c.actions@)[k];
            &&& b.domain == e.domain.unwrap()@
            &&& b.service == e.service.unwrap()@
            &&& b.payload == e.payload.unwrap()
        },
{
    lemma_compiled_prefix(c.actions@, res, c.actions@.len());
    assert(c.actions@.subrange(0, c.actions@.len() as int) == c.actions@);
}

/// An entry of another kind than `call_service` adds no binding, and needs
/// no domain, service or payload to pass validation.
pub proof fn lemma_other_kinds_inert<K>(acts: Seq<ConfigEntry>, res: Seq<Vec<Option<K>>>, i: int)
    requires
        0 <= i < acts.len(),
        i < res.len(),
        !is_call_service(acts[i]),
    ensures
        compiled(acts, res, (i + 1) as nat) == compiled(acts, res, i as nat),
        first_unresolved(res[i]@, res[i]@.len()).is_none() ==> entry_error(acts[i], res[i]@, i).is_none(),
{
}

/// A `call_service` entry without a domain, service or payload makes the
/// document invalid; when it is the first faulty entry, the error names it
/// and the first missing field.
pub proof fn lemma_missing_field_rejected<K>(c: ConfigFile, res: Seq<Vec<Option<K>>>, i: int)
    requires
        shaped(c, res),
        0 <= i < c.actions@.len(),
        is_call_service(c.actions@[i]),
        c.actions@[i].domain is None || c.actions@[i].service is None || c.actions@[i].payload is None,
    ensures
        validation(c, res) is Err,
        c.port != 0 && first_error(c.actions@, res, i as nat).is_none() && first_unresolved(
            res[i]@,
            res[i]@.len(),
        ).is_none() ==> validation(c, res) == Err::<(), ConfigError>(
            ConfigError::MissingField {
                entry: i as usize,
                description: c.actions@[i].description,
                field: if c.actions@[i].domain is None {
                    Field::Domain
                } else if c.actions@[i].service is None {
                    Field::Service
                } else {
                    Field::Payload
                },
            },
        ),
{
    if c.port != 0 {
        if first_error(c.actions@, res, c.actions@.len()).is_none() {
            lemma_valid_entry(c.actions@, res, i);
        }
        if first_error(c.actions@, res, i as nat).is_none() {
            assert(first_error(c.actions@, res, (i + 1) as nat) == entry_error(c.actions@[i], res[i]@, i));
            lemma_first_error_first(c.actions@, res, (i + 1) as nat, c.actions@.len());
        }
    }
}

/// A key name that resolves to no key makes the document invalid.
pub proof fn lemma_unknown_key_rejected<K>(c: ConfigFile, res: Seq<Vec<Option<K>>>, i: int, j: int)
    requires
        shaped(c, res),
        0 <= i < c.actions@.len(),
        0 <= j < res[i]@.len(),
        res[i]@[j] is None,
    ensures
        validation(c, res) is Err,
{
    if c.port != 0 && first_error(c.actions@, res, c.actions@.len()).is_none() {
        lemma_valid_entry(c.actions@, res, i);
        lemma_all_resolved(res[i]@, j);
    }
}

/// Validating and compiling the same document with the same key resolutions
/// twice gives the same verdict and the same bindings.
pub proof fn lemma_validation_repeatable<K>(
    c1: ConfigFile,
    res1: Seq<Vec<Option<K>>>,
    c2: ConfigFile,
    res2: Seq<Vec<Option<K>>>,
)
    requires
        c1 == c2,
        res1 == res2,
    ensures
        validation(c1, res1) == validation(c2, res2),
        compiled(c1.actions@, res1, c1.actions@.len()) == compiled(c2.actions@, res2, c2.actions@.len()),
{
}

} // verus!
