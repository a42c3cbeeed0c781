use vstd::prelude::*;

use crate::error::SarifError;
use crate::hook::{Hook, SarifConfig, SarifConfigView};
use crate::text::{
    copy_strings, ends_with, has_suffix, joined, same_text, starts_with, strip_prefix, texts,
};

verus! {

/// The scheme that names an adaptor binary carried inside the build.
pub open spec fn embedded_scheme() -> Seq<char> {
    "embedded://"@
}

/// An external program that turns a hook's output into SARIF.
#[derive(Debug)]
pub struct SarifAdapter {
    pub binary: String,
    pub args: Vec<String>,
}

/// How a hook gets its SARIF output.
#[derive(Debug)]
pub enum SarifStrategy {
    /// Run the hook with `flags` added to its arguments, and pass what it
    /// prints through `adapter` when there is one.
    Combined { flags: Vec<String>, adapter: Option<SarifAdapter> },
    /// The hook gives no SARIF output.
    NoOutput,
}

/// A SARIF adaptor description, as an adaptor YAML file writes it.
#[derive(Debug)]
pub struct AdaptorYaml {
    pub flags: Vec<String>,
    pub binary: Option<String>,
    pub args: Vec<String>,
}

/// An adaptor YAML that was embedded in the build under `name`, as its parser
/// read it: the description, or what the parser said.
#[derive(Debug)]
pub struct EmbeddedYaml {
    pub name: String,
    pub parsed: Result<AdaptorYaml, String>,
}

/// What the build embedded: the names of the adaptor binaries and the
/// adaptor YAML files.  Where two YAML files share a name, the first counts.
#[derive(Debug)]
pub struct EmbeddedCatalog {
    pub binaries: Vec<String>,
    pub yamls: Vec<EmbeddedYaml>,
}

impl SarifAdapter {
    /// Whether this adapter runs `binary` with `args`.
    pub open spec fn is(self, binary: Seq<char>, args: Seq<Seq<char>>) -> bool {
        self.binary@ == binary && texts(self.args@) == args
    }
}

impl SarifStrategy {
    /// Whether this is the combined strategy with `flags` and no adapter.
    pub open spec fn is_flags_only(self, flags: Seq<Seq<char>>) -> bool {
        self matches SarifStrategy::Combined { flags: f, adapter: None } && texts(f@) == flags
    }

    /// Whether this is the combined strategy with `flags` and an adapter that
    /// runs `binary` with `args`.
    pub open spec fn is_with_adapter(self, flags: Seq<Seq<char>>, binary: Seq<char>, args: Seq<Seq<char>>) -> bool {
        self matches SarifStrategy::Combined { flags: f, adapter: Some(a) } && texts(f@) == flags
            && a.is(binary, args)
    }
}

/// Whether `path` ends in `.nim`, holds neither `\` nor `:`, and does not
/// begin with `//`, so that no platform reads a prefix (a drive, a UNC share
/// or a verbatim path) in it and its file name is what follows its last `/`.
pub open spec fn plain_nim_path(path: Seq<char>) -> bool {
    &&& ends_with(path, ".nim"@)
    &&& !path.contains('\\')
    &&& !path.contains(':')
    &&& !starts_with(path, "//"@)
}

/// What follows the last `/` of `path` (all of it when there is none).
pub open spec fn after_last_slash(path: Seq<char>) -> Seq<char>
    decreases path.len(),
{
    if path.len() == 0 {
        path
    } else if path.last() == '/' {
        Seq::empty()
    } else {
        after_last_slash(path.drop_last()).push(path.last())
    }
}

/// The file stem of a path that ends in `.nim`: its file name without the
/// `.nim` extension, or the whole file name when that is `.nim` itself.
pub open spec fn nim_stem(path: Seq<char>) -> Seq<char> {
    let name = after_last_slash(path);
    if name.len() <= 4 {
        name
    } else {
        name.take(name.len() - 4)
    }
}

/// Whether `out` is what `normalize_adapter_binary` may make of `binary`: a
/// Nim source names the embedded adaptor of its file stem, any other binary
/// stays as it is.  Where the platform decides how the path splits (it is not
/// a `plain_nim_path`: it holds `\` or `:`, or begins with `//`), `out` is the
/// binary itself or some embedded name.
pub open spec fn normalizes_to(binary: Seq<char>, out: Seq<char>) -> bool {
    if !ends_with(binary, ".nim"@) {
        out == binary
    } else if plain_nim_path(binary) {
        out == embedded_scheme() + nim_stem(binary)
    } else {
        out == binary || exists|stem: Seq<char>| out == embedded_scheme() + stem
    }
}

/// Calls `std::path::Path::file_stem` on `path` and keeps the stem when it is
/// valid UTF-8.  Stated: for a `plain_nim_path` (ends in `.nim`, holds neither
/// `\` nor `:`, does not begin with `//`) the stem is there and is `nim_stem`
/// of the path (the documented rule: the file name is the last component, the
/// stem is the part before its last `.`, or the whole name when that `.` is
/// its first character).  Only such a path is free of every platform's
/// prefixes (`C:`, `\\?\`, and on Windows also `//host/share`).  On any other
/// path nothing is stated, as the platform decides how it splits.
#[verifier::external_body]
fn path_file_stem(path: &str) -> (stem: Option<String>)
    ensures
        plain_nim_path(path@) ==> stem is Some,
        plain_nim_path(path@) ==> stem.unwrap()@ == nim_stem(path@),
{
    std::path::Path::new(path).file_stem().and_then(|s| s.to_str()).map(|s| s.to_string())
}

/// Turns the binary of an adaptor YAML into the binary to run: a Nim source
/// (`.nim`) stands for the embedded adaptor of the same stem.
pub fn normalize_adapter_binary(binary: String) -> (out: String)
    ensures
        normalizes_to(binary@, out@),
{
    if has_suffix(binary.as_str(), ".nim") {
        match path_file_stem(binary.as_str()) {
            Some(stem) => {
                let out = joined("embedded://", stem.as_str());
                assert(out@ == embedded_scheme() + stem@);
                return out;
            },
            None => {},
        }
    }
    binary
}

/// The adapter that runs the embedded binary of `hook_id` with `args`.
fn embedded_adapter(hook_id: &str, args: Vec<String>) -> (adapter: SarifAdapter)
    ensures
        adapter.binary@ == embedded_scheme() + hook_id@,
        adapter.args@ == args@,
{
    SarifAdapter { binary: joined("embedded://", hook_id), args }
}

/// What `strategy_from_adaptor_yaml` gives for `adaptor`: an explicit binary
/// is normalized, else an embedded binary of the hook is used, and a
/// description with neither flags nor binary is refused.
pub open spec fn adaptor_strategy(
    adaptor: AdaptorYaml,
    has_embedded_binary: bool,
    hook_id: Seq<char>,
    result: Result<SarifStrategy, SarifError>,
) -> bool {
    let flags = texts(adaptor.flags@);
    let args = texts(adaptor.args@);
    match adaptor.binary {
        Some(b) => result matches Ok(s) && s matches SarifStrategy::Combined {
            flags: f,
            adapter: Some(a),
        } && texts(f@) == flags && texts(a.args@) == args && normalizes_to(b@, a.binary@),
        None => if has_embedded_binary {
            result matches Ok(s) && s.is_with_adapter(flags, embedded_scheme() + hook_id, args)
        } else if adaptor.flags@.len() == 0 {
            result matches Err(SarifError::EmptyAdaptor)
        } else {
            result matches Ok(s) && s.is_flags_only(flags)
        },
    }
}

/// Builds the strategy that an adaptor YAML describes.
pub fn strategy_from_adaptor_yaml(
    adaptor: AdaptorYaml,
    has_embedded_binary: bool,
    hook_id: &str,
) -> (result: Result<SarifStrategy, SarifError>)
    ensures
        adaptor_strategy(adaptor, has_embedded_binary, hook_id@, result),
{
    let ghost original = adaptor;
    let AdaptorYaml { flags, binary, args } = adaptor;
    let adapter = match binary {
        Some(binary) => Some(SarifAdapter { binary: normalize_adapter_binary(binary), args }),
        None => if has_embedded_binary {
            Some(embedded_adapter(hook_id, args))
        } else {
            None
        },
    };
    if flags.len() == 0 && adapter.is_none() {
        return Err(SarifError::EmptyAdaptor);
    }
    Ok(SarifStrategy::Combined { flags, adapter })
}


impl AdaptorYaml {
    /// A copy of this description.
    pub fn duplicate(&self) -> (copy: AdaptorYaml)
        ensures
            copy.flags@ == self.flags@,
            copy.binary == self.binary,
            copy.args@ == self.args@,
    {
        let binary = match &self.binary {
            Some(b) => Some(b.clone()),
            None => None,
        };
        AdaptorYaml { flags: copy_strings(&self.flags), binary, args: copy_strings(&self.args) }
    }
}

/// Whether the build embedded a binary named `hook_id`.
pub open spec fn has_embedded_binary(catalog: EmbeddedCatalog, hook_id: Seq<char>) -> bool {
    exists|i: int| 0 <= i < catalog.binaries@.len() && #[trigger] catalog.binaries@[i]@ == hook_id
}

/// Whether the build embedded an adaptor YAML named `hook_id`.
pub open spec fn has_embedded_yaml(catalog: EmbeddedCatalog, hook_id: Seq<char>) -> bool {
    exists|i: int| 0 <= i < catalog.yamls@.len() && #[trigger] catalog.yamls@[i].name@ == hook_id
}

/// Whether the YAML at `i` is the first one named `hook_id`.
pub open spec fn is_first_yaml(catalog: EmbeddedCatalog, hook_id: Seq<char>, i: int) -> bool {
    &&& 0 <= i < catalog.yamls@.len()
    &&& catalog.yamls@[i].name@ == hook_id
    &&& forall|j: int| 0 <= j < i ==> #[trigger] catalog.yamls@[j].name@ != hook_id
}

/// What the embedded adaptors say of `hook_id`: the first YAML of that name
/// decides (a parse failure is an error), else an embedded binary of that
/// name is the adapter, else there is no strategy.
pub open spec fn embedded_resolution(
    catalog: EmbeddedCatalog,
    hook_id: Seq<char>,
    result: Result<Option<SarifStrategy>, SarifError>,
) -> bool {
    let binary = has_embedded_binary(catalog, hook_id);
    if has_embedded_yaml(catalog, hook_id) {
        forall|i: int|
            is_first_yaml(catalog, hook_id, i) ==> match #[trigger] catalog.yamls@[i].parsed {
                Err(detail) => result matches Err(SarifError::EmbeddedYaml { hook_id: h, detail: d })
                    && h@ == hook_id && d@ == detail@,
                Ok(adaptor) => match result {
                    Ok(Some(s)) => adaptor_strategy(adaptor, binary, hook_id, Ok(s)),
                    Ok(None) => false,
                    Err(e) => adaptor_strategy(adaptor, binary, hook_id, Err(e)),
                },
            }
    } else if binary {
        result matches Ok(Some(s)) && s.is_with_adapter(Seq::empty(), embedded_scheme() + hook_id, Seq::empty())
    } else {
        result matches Ok(None)
    }
}

/// Whether the build embedded a binary named `hook_id`.
pub fn embeds_binary(catalog: &EmbeddedCatalog, hook_id: &str) -> (found: bool)
    ensures
        found == has_embedded_binary(*catalog, hook_id@),
{
    let mut i: usize = 0;
    while i < catalog.binaries.len()
        invariant
            i <= catalog.binaries@.len(),
            forall|j: int| 0 <= j < i ==> #[trigger] catalog.binaries@[j]@ != hook_id@,
        decreases catalog.binaries@.len() - i,
    {
        if same_text(catalog.binaries[i].as_str(), hook_id) {
            return true;
        }
        i += 1;
    }
    false
}

/// The position of the first embedded YAML named `hook_id`.
fn find_embedded_yaml(catalog: &EmbeddedCatalog, hook_id: &str) -> (found: Option<usize>)
    ensures
        found is None <==> !has_embedded_yaml(*catalog, hook_id@),
        found matches Some(i) ==> is_first_yaml(*catalog, hook_id@, i as int),
{
    let mut i: usize = 0;
    while i < catalog.yamls.len()
        invariant
            i <= catalog.yamls@.len(),
            forall|j: int| 0 <= j < i ==> #[trigger] catalog.yamls@[j].name@ != hook_id@,
        decreases catalog.yamls@.len() - i,
    {
        if same_text(catalog.yamls[i].name.as_str(), hook_id) {
            return Some(i);
        }
        i += 1;
    }
    None
}

/// Resolves the SARIF strategy that the build's embedded adaptors give a hook.
pub fn resolve_embedded_strategy(hook_id: &str, catalog: &EmbeddedCatalog) -> (result: Result<
    Option<SarifStrategy>,
    SarifError,
>)
    ensures
        embedded_resolution(*catalog, hook_id@, result),
{
    let has_binary = embeds_binary(catalog, hook_id);
    match find_embedded_yaml(catalog, hook_id) {
        Some(i) => {
            let entry = &catalog.yamls[i];
            match &entry.parsed {
                Err(detail) => {
                    return Err(
                        SarifError::EmbeddedYaml {
                            hook_id: String::from_str(hook_id),
                            detail: detail.clone(),
                        },
                    );
                },
                Ok(adaptor) => {
                    let copy = adaptor.duplicate();
                    let result = strategy_from_adaptor_yaml(copy, has_binary, hook_id);
                    return match result {
                        Ok(s) => Ok(Some(s)),
                        Err(e) => Err(e),
                    };
                },
            }
        },
        None => {},
    }
    if has_binary {
        let adapter = embedded_adapter(hook_id, Vec::new());
        let flags: Vec<String> = Vec::new();
        assert(texts(flags@) =~= Seq::empty());
        assert(texts(adapter.args@) =~= Seq::empty());
        Ok(Some(SarifStrategy::Combined { flags, adapter: Some(adapter) }))
    } else {
        Ok(None)
    }
}

/// What `resolve_strategy` gives a hook: its own configuration first, then
/// what the build's embedded adaptors say of its id.
pub open spec fn hook_resolution(
    hook: Hook,
    catalog: EmbeddedCatalog,
    result: Result<Option<SarifStrategy>, SarifError>,
) -> bool {
    match hook@.sarif {
        Some(SarifConfigView::Flags { args }) => result matches Ok(Some(s)) && s.is_flags_only(args),
        Some(SarifConfigView::Adapter { binary, args }) => result matches Ok(Some(s))
            && s.is_with_adapter(Seq::empty(), binary, args),
        None => embedded_resolution(catalog, hook.id@, result),
    }
}

/// Resolves the SARIF strategy of a hook: the hook's own `sarif`
/// configuration decides; without one, the embedded adaptors of its id do.
pub fn resolve_strategy(hook: &Hook, catalog: &EmbeddedCatalog) -> (result: Result<
    Option<SarifStrategy>,
    SarifError,
>)
    ensures
        hook_resolution(*hook, *catalog, result),
{
    match &hook.sarif {
        Some(SarifConfig::Flags { args }) => {
            let flags = copy_strings(args);
            Ok(Some(SarifStrategy::Combined { flags, adapter: None }))
        },
        Some(SarifConfig::Adapter { binary, args }) => {
            let adapter = SarifAdapter { binary: binary.clone(), args: copy_strings(args) };
            let flags: Vec<String> = Vec::new();
            assert(texts(flags@) =~= Seq::empty());
            Ok(Some(SarifStrategy::Combined { flags, adapter: Some(adapter) }))
        },
        None => resolve_embedded_strategy(hook.id.as_str(), catalog),
    }
}

/// The name of the embedded adaptor that an adapter binary stands for, when
/// it names one (`embedded://<name>`).
pub fn embedded_adaptor_name(binary: &str) -> (name: Option<String>)
    ensures
        name is Some <==> starts_with(binary@, embedded_scheme()),
        name matches Some(n) ==> n@ == binary@.skip(embedded_scheme().len() as int),
{
    strip_prefix(binary, "embedded://")
}

/// Whether two strategies are the same: the same flags and the same
/// adapter, compared by their texts.
pub open spec fn same_strategy(a: SarifStrategy, b: SarifStrategy) -> bool {
    match (a, b) {
        (
            SarifStrategy::Combined { flags: f1, adapter: a1 },
            SarifStrategy::Combined { flags: f2, adapter: a2 },
        ) => texts(f1@) == texts(f2@) && match (a1, a2) {
            (None, None) => true,
            (Some(x), Some(y)) => x.is(y.binary@, texts(y.args@)),
            _ => false,
        },
        (SarifStrategy::NoOutput, SarifStrategy::NoOutput) => true,
        _ => false,
    }
}

/// Whether two errors are the same, compared by their texts.
pub open spec fn same_error(a: SarifError, b: SarifError) -> bool {
    match (a, b) {
        (
            SarifError::EmbeddedYaml { hook_id: h1, detail: d1 },
            SarifError::EmbeddedYaml { hook_id: h2, detail: d2 },
        ) => h1@ == h2@ && d1@ == d2@,
        (SarifError::EmptyAdaptor, SarifError::EmptyAdaptor) => true,
        (SarifError::NotSarif, SarifError::NotSarif) => true,
        (SarifError::InvalidJson(x), SarifError::InvalidJson(y)) => x@ == y@,
        _ => false,
    }
}

/// Whether two outcomes of building a strategy are the same.
pub open spec fn same_outcome(a: Result<SarifStrategy, SarifError>, b: Result<SarifStrategy, SarifError>) -> bool {
    match (a, b) {
        (Ok(x), Ok(y)) => same_strategy(x, y),
        (Err(x), Err(y)) => same_error(x, y),
        _ => false,
    }
}

/// Whether two outcomes of resolving a strategy are the same.
pub open spec fn same_resolution(
    a: Result<Option<SarifStrategy>, SarifError>,
    b: Result<Option<SarifStrategy>, SarifError>,
) -> bool {
    match (a, b) {
        (Ok(None), Ok(None)) => true,
        (Ok(Some(x)), Ok(Some(y))) => same_strategy(x, y),
        (Err(x), Err(y)) => same_error(x, y),
        _ => false,
    }
}

/// Whether the adaptor's binary, if any, is normalized the same way on every
/// platform: it is no Nim source, or a Nim source on a `plain_nim_path`.
pub open spec fn binary_determined(adaptor: AdaptorYaml) -> bool {
    match adaptor.binary {
        Some(b) => !ends_with(b@, ".nim"@) || plain_nim_path(b@),
        None => true,
    }
}

/// Whether the first embedded YAML named `hook_id`, when it parsed, has a
/// binary that is normalized the same way on every platform.
pub open spec fn embedded_determined(catalog: EmbeddedCatalog, hook_id: Seq<char>) -> bool {
    forall|i: int|
        is_first_yaml(catalog, hook_id, i) ==> match #[trigger] catalog.yamls@[i].parsed {
            Ok(adaptor) => binary_determined(adaptor),
            Err(_) => true,
        }
}

} // verus!
