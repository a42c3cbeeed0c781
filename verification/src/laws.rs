use vstd::prelude::*;

use crate::diagnostic::{
    first_occurrences, location_model, region_members, result_model, rule_ids, rule_model,
    sarif_run_model, HookDiagnostic,
};
use crate::env::EnvVars;
use crate::error::SarifError;
use crate::hook::{adds_flags, sets_env, Hook, InstalledHook, SarifConfig, SarifConfigView};
use crate::json::{get_item, get_member, item_count, member_value, Json, JsonModel};
use crate::report::{absorb, carried_runs, has_member, is_first_member, pushed};
use crate::strategy::{
    adaptor_strategy, binary_determined, embedded_determined, embedded_resolution,
    embedded_scheme, has_embedded_binary, has_embedded_yaml, hook_resolution, is_first_yaml,
    nim_stem, normalizes_to, plain_nim_path, same_outcome, same_resolution, after_last_slash,
    AdaptorYaml, EmbeddedCatalog, SarifStrategy,
};
use crate::text::{ends_with, starts_with, texts};

verus! {

/// Runs that a report has collected stay collected, in their order, whatever
/// the next stream holds: the runs before a push are a prefix of the runs
/// after it.
pub proof fn law_collected_runs_stay(runs: Seq<Json>, documents: Seq<Result<Json, String>>)
    ensures
        runs.len() <= absorb(runs, documents).0.len(),
        absorb(runs, documents).0.take(runs.len() as int) == runs,
    decreases documents.len(),
{
    if documents.len() > 0 {
        match documents[0] {
            Err(_) => {
                assert(runs.take(runs.len() as int) =~= runs);
            },
            Ok(doc) => match carried_runs(doc) {
                Some(items) => {
                    law_collected_runs_stay(runs + items, documents.drop_first());
                    let after = absorb(runs + items, documents.drop_first()).0;
                    assert(after.take(runs.len() as int) =~= (runs + items).take(runs.len() as int));
                    assert((runs + items).take(runs.len() as int) =~= runs);
                },
                None => if has_member(doc, "tool"@) {
                    law_collected_runs_stay(runs.push(doc), documents.drop_first());
                    let after = absorb(runs.push(doc), documents.drop_first()).0;
                    assert(after.take(runs.len() as int) =~= runs.push(doc).take(runs.len() as int));
                    assert(runs.push(doc).take(runs.len() as int) =~= runs);
                } else {
                    assert(runs.take(runs.len() as int) =~= runs);
                },
            },
        }
    } else {
        assert(runs.take(runs.len() as int) =~= runs);
    }
}

/// Taking in one stream and then another collects what taking in both
/// streams at once collects, and ends the same way, when the first stream
/// is taken in without error.
pub proof fn law_streams_concatenate(
    runs: Seq<Json>,
    first: Seq<Result<Json, String>>,
    second: Seq<Result<Json, String>>,
)
    requires
        absorb(runs, first).1 is None,
    ensures
        absorb(runs, first + second) == absorb(absorb(runs, first).0, second),
    decreases first.len(),
{
    if first.len() == 0 {
        assert(first + second =~= second);
    } else {
        let both = first + second;
        assert(both[0] == first[0]);
        assert(both.drop_first() =~= first.drop_first() + second);
        match first[0] {
            Err(_) => {},
            Ok(doc) => match carried_runs(doc) {
                Some(items) => {
                    law_streams_concatenate(runs + items, first.drop_first(), second);
                },
                None => if has_member(doc, "tool"@) {
                    law_streams_concatenate(runs.push(doc), first.drop_first(), second);
                } else {
                },
            },
        }
    }
}

/// A stream of SARIF documents that ends with an error keeps what the
/// documents before the error carried and reports that error: the error
/// stops the stream.
pub proof fn law_stream_stops_at_error(
    runs: Seq<Json>,
    first: Seq<Result<Json, String>>,
    second: Seq<Result<Json, String>>,
)
    requires
        absorb(runs, first).1 is Some,
    ensures
        absorb(runs, first + second) == absorb(runs, first),
    decreases first.len(),
{
    let both = first + second;
    assert(both[0] == first[0]);
    assert(both.drop_first() =~= first.drop_first() + second);
    match first[0] {
        Err(_) => {},
        Ok(doc) => match carried_runs(doc) {
            Some(items) => {
                law_stream_stops_at_error(runs + items, first.drop_first(), second);
            },
            None => if has_member(doc, "tool"@) {
                law_stream_stops_at_error(runs.push(doc), first.drop_first(), second);
            } else {
            },
        },
    }
}

/// The rules of a SARIF run list each rule id once, and every rule id of the
/// findings is listed.
pub proof fn law_rules_list_each_rule_once(ids: Seq<Seq<char>>)
    ensures
        first_occurrences(ids).no_duplicates(),
        forall|x: Seq<char>| first_occurrences(ids).contains(x) <==> ids.contains(x),
    decreases ids.len(),
{
    if ids.len() > 0 {
        let rest = ids.drop_last();
        let last = ids.last();
        law_rules_list_each_rule_once(rest);
        let earlier = first_occurrences(rest);
        assert forall|x: Seq<char>| ids.contains(x) <==> (rest.contains(x) || x == last) by {
            if ids.contains(x) {
                let i = choose|i: int| 0 <= i < ids.len() && ids[i] == x;
                if i < ids.len() - 1 {
                    assert(rest[i] == x);
                }
            }
            if rest.contains(x) {
                let i = choose|i: int| 0 <= i < rest.len() && rest[i] == x;
                assert(ids[i] == x);
            }
            if x == last {
                assert(ids[ids.len() - 1] == x);
            }
        }
        if !earlier.contains(last) {
            let grown = earlier.push(last);
            assert forall|x: Seq<char>| grown.contains(x) <==> (earlier.contains(x) || x == last) by {
                if grown.contains(x) {
                    let k = choose|k: int| 0 <= k < grown.len() && grown[k] == x;
                    if k < earlier.len() {
                        assert(earlier[k] == x);
                    }
                }
                if earlier.contains(x) {
                    let k = choose|k: int| 0 <= k < earlier.len() && earlier[k] == x;
                    assert(grown[k] == x);
                }
                if x == last {
                    assert(grown[earlier.len() as int] == x);
                }
            }
            assert forall|a: int, b: int| 0 <= a < grown.len() && 0 <= b < grown.len() && a != b
                implies grown[a] != grown[b] by {
                if a == earlier.len() {
                    assert(earlier[b] == grown[b]);
                } else if b == earlier.len() {
                    assert(earlier[a] == grown[a]);
                } else {
                    assert(earlier[a] == grown[a] && earlier[b] == grown[b]);
                }
            }
        }
    }
}

/// The adapter binary `embedded://<name>` that a strategy names is read
/// back as the embedded adaptor `name`.
pub proof fn law_embedded_name_round_trip(name: Seq<char>)
    ensures
        starts_with(embedded_scheme() + name, embedded_scheme()),
        (embedded_scheme() + name).skip(embedded_scheme().len() as int) == name,
{
    assert((embedded_scheme() + name).subrange(0, embedded_scheme().len() as int) =~= embedded_scheme());
    assert((embedded_scheme() + name).skip(embedded_scheme().len() as int) =~= name);
}

/// An adaptor YAML whose binary is a Nim source (on a plain path) makes the
/// adapter run the embedded adaptor named by the file stem.
pub proof fn law_nim_source_names_embedded_stem(binary: Seq<char>, out: Seq<char>)
    requires
        plain_nim_path(binary),
        normalizes_to(binary, out),
    ensures
        starts_with(out, embedded_scheme()),
        out.skip(embedded_scheme().len() as int) == nim_stem(binary),
{
    law_embedded_name_round_trip(nim_stem(binary));
}

/// A strategy built from an adaptor YAML is never empty: it adds flags to
/// the hook or names an adapter.
pub proof fn law_adaptor_strategy_not_empty(
    adaptor: AdaptorYaml,
    has_embedded_binary: bool,
    hook_id: Seq<char>,
    result: Result<SarifStrategy, SarifError>,
)
    requires
        adaptor_strategy(adaptor, has_embedded_binary, hook_id, result),
        result is Ok,
    ensures
        result->Ok_0 matches SarifStrategy::Combined { flags, adapter } && (flags@.len() > 0
            || adapter is Some),
{
    if let Ok(SarifStrategy::Combined { flags, adapter: None }) = result {
        assert(texts(flags@).len() == flags@.len());
    }
}

/// There is a first embedded YAML of a name whenever there is one of that
/// name.
proof fn lemma_first_yaml_exists(catalog: EmbeddedCatalog, hook_id: Seq<char>, i: int)
    requires
        0 <= i < catalog.yamls@.len(),
        catalog.yamls@[i].name@ == hook_id,
    ensures
        exists|k: int| is_first_yaml(catalog, hook_id, k),
    decreases i,
{
    if exists|j: int| 0 <= j < i && #[trigger] catalog.yamls@[j].name@ == hook_id {
        let j = choose|j: int| 0 <= j < i && #[trigger] catalog.yamls@[j].name@ == hook_id;
        lemma_first_yaml_exists(catalog, hook_id, j);
    } else {
        assert(is_first_yaml(catalog, hook_id, i));
    }
}

/// Resolving a hook's strategy gives the combined strategy whenever it gives
/// one: a resolved hook never has "no output".
pub proof fn law_resolution_is_combined(
    hook: Hook,
    catalog: EmbeddedCatalog,
    result: Result<Option<SarifStrategy>, SarifError>,
)
    requires
        hook_resolution(hook, catalog, result),
        result matches Ok(Some(_)),
    ensures
        result->Ok_0->Some_0 is Combined,
{
    if hook@.sarif is None && has_embedded_yaml(catalog, hook.id@) {
        let i = choose|i: int|
            0 <= i < catalog.yamls@.len() && #[trigger] catalog.yamls@[i].name@ == hook.id@;
        lemma_first_yaml_exists(catalog, hook.id@, i);
        let k = choose|k: int| is_first_yaml(catalog, hook.id@, k);
        assert(embedded_resolution(catalog, hook.id@, result));
        match catalog.yamls@[k].parsed {
            Ok(adaptor) => {
                assert(adaptor_strategy(adaptor, crate::strategy::has_embedded_binary(catalog, hook.id@), hook.id@, Ok(result->Ok_0->Some_0)));
            },
            Err(_) => {},
        }
    }
}

/// Reading an environment variable after `insert` gives the value written,
/// and every other variable reads as it did before.
pub proof fn law_env_read_after_write(
    before: EnvVars,
    after: EnvVars,
    name: Seq<char>,
    value: Seq<char>,
    other: Seq<char>,
)
    requires
        after@ == before@.insert(name, value),
    ensures
        after.value_of(name) == Some(value),
        other != name ==> after.value_of(other) == before.value_of(other),
{
}

/// Adding native flags to a hook and setting an environment variable on it
/// give the same hook in either order.
pub proof fn law_flags_and_env_commute<Info>(
    hook: InstalledHook<Info>,
    flags_first: InstalledHook<Info>,
    flags_then_env: InstalledHook<Info>,
    env_first: InstalledHook<Info>,
    env_then_flags: InstalledHook<Info>,
    flags: Seq<Seq<char>>,
    key: Seq<char>,
    value: Seq<char>,
)
    requires
        adds_flags(hook, flags_first, flags),
        sets_env(flags_first, flags_then_env, key, value),
        sets_env(hook, env_first, key, value),
        adds_flags(env_first, env_then_flags, flags),
    ensures
        flags_then_env.hook_view() == env_then_flags.hook_view(),
        hook.same_install(flags_then_env),
        hook.same_install(env_then_flags),
{
}

/// Building a strategy from an adaptor YAML is a function of the adaptor:
/// two builds from the same adaptor give the same strategy or the same error,
/// when its binary is normalized the same way on every platform.
pub proof fn law_adaptor_strategy_is_determined(
    adaptor: AdaptorYaml,
    has_embedded_binary: bool,
    hook_id: Seq<char>,
    first: Result<SarifStrategy, SarifError>,
    second: Result<SarifStrategy, SarifError>,
)
    requires
        binary_determined(adaptor),
        adaptor_strategy(adaptor, has_embedded_binary, hook_id, first),
        adaptor_strategy(adaptor, has_embedded_binary, hook_id, second),
    ensures
        same_outcome(first, second),
{
}

/// Resolving through the embedded tables gives what building the strategy
/// from the first embedded YAML of the hook gives (as `Some`), with
/// `has_embedded_binary` telling whether the build embedded a binary of that
/// name.
pub proof fn law_embedded_yaml_gives_adaptor_strategy(
    catalog: EmbeddedCatalog,
    hook_id: Seq<char>,
    i: int,
    resolved: Result<Option<SarifStrategy>, SarifError>,
    built: Result<SarifStrategy, SarifError>,
)
    requires
        is_first_yaml(catalog, hook_id, i),
        catalog.yamls@[i].parsed is Ok,
        binary_determined(catalog.yamls@[i].parsed->Ok_0),
        embedded_resolution(catalog, hook_id, resolved),
        adaptor_strategy(
            catalog.yamls@[i].parsed->Ok_0,
            has_embedded_binary(catalog, hook_id),
            hook_id,
            built,
        ),
    ensures
        same_resolution(
            resolved,
            match built {
                Ok(s) => Ok(Some(s)),
                Err(e) => Err(e),
            },
        ),
{
    assert(has_embedded_yaml(catalog, hook_id)) by {
        assert(catalog.yamls@[i].name@ == hook_id);
    }
}

/// Resolving a hook that has no SARIF configuration of its own gives what
/// resolving its id through the embedded tables gives.
pub proof fn law_resolve_without_config_is_embedded(
    hook: Hook,
    catalog: EmbeddedCatalog,
    resolved: Result<Option<SarifStrategy>, SarifError>,
    embedded: Result<Option<SarifStrategy>, SarifError>,
)
    requires
        hook@.sarif is None,
        embedded_determined(catalog, hook.id@),
        hook_resolution(hook, catalog, resolved),
        embedded_resolution(catalog, hook.id@, embedded),
    ensures
        same_resolution(resolved, embedded),
{
    let id = hook.id@;
    assert(embedded_resolution(catalog, id, resolved));
    if has_embedded_yaml(catalog, id) {
        let i = choose|i: int| 0 <= i < catalog.yamls@.len() && #[trigger] catalog.yamls@[i].name@ == id;
        lemma_first_yaml_exists(catalog, id, i);
        let k = choose|k: int| is_first_yaml(catalog, id, k);
        let binary = has_embedded_binary(catalog, id);
        match catalog.yamls@[k].parsed {
            Ok(adaptor) => {
                assert(binary_determined(adaptor));
                match (resolved, embedded) {
                    (Ok(Some(x)), Ok(Some(y))) => {
                        law_adaptor_strategy_is_determined(adaptor, binary, id, Ok(x), Ok(y));
                    },
                    (Err(x), Err(y)) => {
                        law_adaptor_strategy_is_determined(adaptor, binary, id, Err(x), Err(y));
                    },
                    (Ok(Some(x)), Err(y)) => {
                        law_adaptor_strategy_is_determined(adaptor, binary, id, Ok(x), Err(y));
                    },
                    (Err(x), Ok(Some(y))) => {
                        law_adaptor_strategy_is_determined(adaptor, binary, id, Err(x), Ok(y));
                    },
                    _ => {},
                }
            },
            Err(_) => {},
        }
    }
}

/// A hook configured with its own adapter runs exactly that adapter, with
/// exactly its arguments and no flags, whatever the build embedded.
pub proof fn law_configured_adapter_wins(
    hook: Hook,
    catalog: EmbeddedCatalog,
    result: Result<Option<SarifStrategy>, SarifError>,
)
    requires
        hook_resolution(hook, catalog, result),
        hook.sarif matches Some(SarifConfig::Adapter { .. }),
    ensures
        result matches Ok(Some(SarifStrategy::Combined { flags, adapter: Some(a) })) && {
            &&& flags@.len() == 0
            &&& hook.sarif matches Some(SarifConfig::Adapter { binary, args }) && {
                &&& a.binary@ == binary@
                &&& a.args@.len() == args@.len()
                &&& forall|k: int| 0 <= k < a.args@.len() ==> #[trigger] a.args@[k]@ == args@[k]@
            }
        },
{
    if let Some(SarifConfig::Adapter { binary, args }) = hook.sarif {
        assert(hook@.sarif == Some(SarifConfigView::Adapter { binary: binary@, args: texts(args@) }));
        if let Ok(Some(SarifStrategy::Combined { flags, adapter: Some(a) })) = result {
            assert(texts(flags@).len() == flags@.len());
            assert(texts(a.args@).len() == a.args@.len());
            assert(texts(args@).len() == args@.len());
            assert forall|k: int| 0 <= k < a.args@.len() implies #[trigger] a.args@[k]@ == args@[k]@ by {
                assert(texts(a.args@)[k] == texts(args@)[k]);
            }
        }
    }
}

/// A hook configured with native flags gets exactly those flags and no
/// adapter, whatever the build embedded.
pub proof fn law_configured_flags_win(
    hook: Hook,
    catalog: EmbeddedCatalog,
    result: Result<Option<SarifStrategy>, SarifError>,
)
    requires
        hook_resolution(hook, catalog, result),
        hook.sarif matches Some(SarifConfig::Flags { .. }),
    ensures
        result matches Ok(Some(SarifStrategy::Combined { flags, adapter: None }))
            && flags@.len() == hook.sarif->Some_0->Flags_args@.len()
            && forall|k: int| 0 <= k < flags@.len() ==> #[trigger] flags@[k]@ == hook.sarif->Some_0->Flags_args@[k]@,
{
    let args = hook.sarif->Some_0->Flags_args;
    if let Ok(Some(SarifStrategy::Combined { flags, adapter: None })) = result {
        assert(texts(flags@).len() == flags@.len());
        assert forall|k: int| 0 <= k < flags@.len() implies #[trigger] flags@[k]@ == args@[k]@ by {
            assert(texts(flags@)[k] == texts(args@)[k]);
        }
    }
}

/// The text after the last `/` of `dir + name`, when `dir` is empty or ends
/// in `/` and `name` holds no `/`, is `name`.
proof fn lemma_after_last_slash_name(dir: Seq<char>, name: Seq<char>)
    requires
        dir.len() == 0 || dir.last() == '/',
        forall|k: int| 0 <= k < name.len() ==> name[k] != '/',
    ensures
        after_last_slash(dir + name) == name,
    decreases name.len(),
{
    let path = dir + name;
    if name.len() == 0 {
        assert(path =~= dir);
        if dir.len() > 0 {
            assert(after_last_slash(path) =~= name);
        }
    } else {
        assert(path.last() == name.last());
        assert(path.drop_last() =~= dir + name.drop_last());
        lemma_after_last_slash_name(dir, name.drop_last());
        assert(name.drop_last().push(name.last()) =~= name);
    }
}

/// An adaptor YAML whose binary is the Nim source `<dir><stem>.nim` runs the
/// embedded adaptor `stem`, whatever the hook and whether the build embedded
/// a binary of the hook's name; the path must be one that every platform
/// splits at `/` alone (no `\`, no `:`, not beginning with `//`).
pub proof fn law_nim_binary_runs_its_stem(
    adaptor: AdaptorYaml,
    has_embedded_binary: bool,
    hook_id: Seq<char>,
    result: Result<SarifStrategy, SarifError>,
    dir: Seq<char>,
    stem: Seq<char>,
)
    requires
        adaptor_strategy(adaptor, has_embedded_binary, hook_id, result),
        adaptor.binary matches Some(b) && b@ == dir + stem + ".nim"@,
        dir.len() == 0 || dir.last() == '/',
        stem.len() > 0,
        forall|k: int| 0 <= k < stem.len() ==> stem[k] != '/',
        forall|k: int| 0 <= k < dir.len() ==> dir[k] != '\\' && dir[k] != ':',
        forall|k: int| 0 <= k < stem.len() ==> stem[k] != '\\' && stem[k] != ':',
        !(dir.len() >= 2 && dir[0] == '/' && dir[1] == '/'),
    ensures
        result matches Ok(SarifStrategy::Combined { adapter: Some(a), .. }) && a.binary@ == "embedded://"@
            + stem,
{
    reveal_strlit(".nim");
    let b = adaptor.binary->Some_0@;
    let ext = ".nim"@;
    let name = stem + ext;
    assert(b =~= dir + name);
    assert(forall|k: int| 0 <= k < name.len() ==> name[k] != '/') by {
        assert forall|k: int| 0 <= k < name.len() implies name[k] != '/' by {
            if k >= stem.len() {
                assert(name[k] == ext[k - stem.len()]);
            }
        }
    }
    lemma_after_last_slash_name(dir, name);
    assert(b.subrange(b.len() - 4, b.len() as int) =~= ext);
    assert(!b.contains('\\')) by {
        if b.contains('\\') {
            let k = choose|k: int| 0 <= k < b.len() && b[k] == '\\';
            if k < dir.len() {
                assert(b[k] == dir[k]);
            } else if k < dir.len() + stem.len() {
                assert(b[k] == stem[k - dir.len()]);
            } else {
                assert(b[k] == ext[k - dir.len() - stem.len()]);
            }
        }
    }
    assert(!b.contains(':')) by {
        if b.contains(':') {
            let k = choose|k: int| 0 <= k < b.len() && b[k] == ':';
            if k < dir.len() {
                assert(b[k] == dir[k]);
            } else if k < dir.len() + stem.len() {
                assert(b[k] == stem[k - dir.len()]);
            } else {
                assert(b[k] == ext[k - dir.len() - stem.len()]);
            }
        }
    }
    assert(!starts_with(b, "//"@)) by {
        reveal_strlit("//");
        if starts_with(b, "//"@) {
            assert(b.subrange(0, 2) == "//"@);
            assert(b.subrange(0, 2)[0] == b[0] && b.subrange(0, 2)[1] == b[1]);
            assert(b[0] == '/' && b[1] == '/');
            if dir.len() == 0 {
                assert(b[0] == stem[0]);
            } else if dir.len() == 1 {
                assert(b[1] == stem[0]);
            } else {
                assert(b[0] == dir[0] && b[1] == dir[1]);
            }
        }
    }
    assert(plain_nim_path(b));
    assert(nim_stem(b) =~= stem);
    reveal_strlit("embedded://");
}

/// Adding native flags to a hook makes its arguments exactly its old
/// arguments followed by all the flags, and changes nothing else, not what
/// its installation recorded either.
pub proof fn law_native_flags_are_appended<Info>(
    before: InstalledHook<Info>,
    after: InstalledHook<Info>,
    flags: Seq<Seq<char>>,
)
    requires
        adds_flags(before, after, flags),
    ensures
        after.hook_view().args.len() == before.hook_view().args.len() + flags.len(),
        forall|k: int| 0 <= k < before.hook_view().args.len() ==> #[trigger] after.hook_view().args[k] == before.hook_view().args[k],
        forall|k: int| 0 <= k < flags.len() ==> after.hook_view().args[before.hook_view().args.len() + k] == #[trigger] flags[k],
        after.hook_view().id == before.hook_view().id,
        after.hook_view().env == before.hook_view().env,
        after.hook_view().sarif == before.hook_view().sarif,
        after is Installed <==> before is Installed,
        after is Installed ==> after->Installed_info == before->Installed_info,
{
}

/// Setting an environment variable on a hook sets exactly that variable and
/// changes nothing else of the hook or of its installation.
pub proof fn law_env_var_is_set<Info>(
    before: InstalledHook<Info>,
    after: InstalledHook<Info>,
    key: Seq<char>,
    value: Seq<char>,
    other: Seq<char>,
)
    requires
        sets_env(before, after, key, value),
    ensures
        after.hook_view().env.dom().contains(key),
        after.hook_view().env[key] == value,
        other != key ==> (after.hook_view().env.dom().contains(other) == before.hook_view().env.dom().contains(other)),
        other != key && before.hook_view().env.dom().contains(other) ==> after.hook_view().env[other] == before.hook_view().env[other],
        after.hook_view().args == before.hook_view().args,
        after.hook_view().id == before.hook_view().id,
        after.hook_view().sarif == before.hook_view().sarif,
        after is Installed <==> before is Installed,
        after is Installed ==> after->Installed_info == before->Installed_info,
{
}

/// What the SARIF result of one finding holds.
proof fn lemma_result_holds(d: HookDiagnostic)
    ensures
        ({
            let result = Some(result_model(d));
            let physical = get_member(
                get_item(get_member(result, "locations"@), 0),
                "physicalLocation"@,
            );
            let region = get_member(physical, "region"@);
            &&& get_member(result, "ruleId"@) == Some(JsonModel::Str(d.rule_id@))
            &&& get_member(result, "level"@) == Some(JsonModel::Str("error"@))
            &&& get_member(get_member(result, "message"@), "text"@) == Some(
                JsonModel::Str(d.message@),
            )
            &&& item_count(get_member(result, "locations"@)) == Some(1nat)
            &&& get_member(get_member(physical, "artifactLocation"@), "uri"@) == Some(
                JsonModel::Str(d.path@),
            )
            &&& (region is None <==> (d.start_line is None && d.start_column is None))
            &&& get_member(region, "startLine"@) == match d.start_line {
                Some(l) => Some(JsonModel::UInt(l)),
                None => None::<JsonModel>,
            }
            &&& get_member(region, "startColumn"@) == match d.start_column {
                Some(c) => Some(JsonModel::UInt(c)),
                None => None::<JsonModel>,
            }
        }),
{
    reveal_strlit("ruleId");
    reveal_strlit("level");
    reveal_strlit("message");
    reveal_strlit("locations");
    reveal_strlit("text");
    reveal_strlit("physicalLocation");
    reveal_strlit("artifactLocation");
    reveal_strlit("uri");
    reveal_strlit("region");
    reveal_strlit("startLine");
    reveal_strlit("startColumn");
    reveal_with_fuel(member_value, 5);
    assert("ruleId"@.len() == 6);
    assert("level"@.len() == 5);
    assert("message"@.len() == 7);
    assert("locations"@.len() == 9);
    assert("text"@.len() == 4);
    assert("physicalLocation"@.len() == 16);
    assert("artifactLocation"@.len() == 16);
    assert("uri"@.len() == 3);
    assert("region"@.len() == 6);
    assert("startLine"@.len() == 9);
    assert("startColumn"@.len() == 11);
    let members = region_members(d);
    let artifact = seq![("artifactLocation"@, JsonModel::Object(seq![("uri"@, JsonModel::Str(d.path@))]))];
    if members.len() > 0 {
        let physical = artifact.push(("region"@, JsonModel::Object(members)));
        assert(physical.drop_first() =~= seq![("region"@, JsonModel::Object(members))]);
        assert(physical.drop_first().drop_first() =~= Seq::<(Seq<char>, JsonModel)>::empty());
    }
    match (d.start_line, d.start_column) {
        (Some(l), Some(c)) => {
            assert(members =~= seq![("startLine"@, JsonModel::UInt(l)), ("startColumn"@, JsonModel::UInt(c))]);
            assert(members.drop_first() =~= seq![("startColumn"@, JsonModel::UInt(c))]);
        },
        (Some(l), None) => {
            assert(members =~= seq![("startLine"@, JsonModel::UInt(l))]);
            assert(members.drop_first() =~= Seq::<(Seq<char>, JsonModel)>::empty());
        },
        (None, Some(c)) => {
            assert(members =~= seq![("startColumn"@, JsonModel::UInt(c))]);
            assert(members.drop_first() =~= Seq::<(Seq<char>, JsonModel)>::empty());
        },
        (None, None) => {
            assert(members =~= Seq::<(Seq<char>, JsonModel)>::empty());
        },
    }
    let rm = seq![
        ("ruleId"@, JsonModel::Str(d.rule_id@)),
        ("level"@, JsonModel::Str("error"@)),
        ("message"@, JsonModel::Object(seq![("text"@, JsonModel::Str(d.message@))])),
        ("locations"@, JsonModel::Array(seq![location_model(d)])),
    ];
    assert(rm.drop_first() =~= seq![rm[1], rm[2], rm[3]]);
    assert(rm.drop_first().drop_first() =~= seq![rm[2], rm[3]]);
    assert(rm.drop_first().drop_first().drop_first() =~= seq![rm[3]]);
    let result = Some(result_model(d));
    assert(result_model(d) == JsonModel::Object(rm));
    assert(get_member(result, "ruleId"@) == Some(JsonModel::Str(d.rule_id@)));
    assert(get_member(result, "level"@) == Some(JsonModel::Str("error"@)));
    assert(get_member(result, "message"@) == Some(rm[2].1));
    assert(get_member(get_member(result, "message"@), "text"@) == Some(JsonModel::Str(d.message@)));
    assert(get_member(result, "locations"@) == Some(rm[3].1));
    let loc = get_item(get_member(result, "locations"@), 0);
    assert(loc == Some(location_model(d)));
    let physical = get_member(loc, "physicalLocation"@);
    assert(physical is Some);
    assert(get_member(get_member(physical, "artifactLocation"@), "uri"@) == Some(JsonModel::Str(d.path@)));
    let region = get_member(physical, "region"@);
    assert(region is None <==> members.len() == 0);
}

/// The SARIF run of a built-in hook names the tool and holds one result per
/// finding, in order: each result is an error of the finding's rule, with
/// its message and file, and its region holds the line and the column of the
/// finding, each exactly when it is known (no region when neither is).
pub proof fn law_run_reports_each_finding(
    run: Json,
    tool_name: Seq<char>,
    hook_id: Seq<char>,
    diagnostics: Seq<HookDiagnostic>,
)
    requires
        run.model() == sarif_run_model(tool_name, hook_id, diagnostics),
    ensures
        get_member(get_member(get_member(Some(run.model()), "tool"@), "driver"@), "name"@) == Some(
            JsonModel::Str(tool_name),
        ),
        item_count(get_member(Some(run.model()), "results"@)) == Some(diagnostics.len()),
        forall|i: int|
            0 <= i < diagnostics.len() ==> {
                let d = #[trigger] diagnostics[i];
                let result = get_item(get_member(Some(run.model()), "results"@), i);
                let physical = get_member(
                    get_item(get_member(result, "locations"@), 0),
                    "physicalLocation"@,
                );
                let region = get_member(physical, "region"@);
                &&& get_member(result, "ruleId"@) == Some(JsonModel::Str(d.rule_id@))
                &&& get_member(result, "level"@) == Some(JsonModel::Str("error"@))
                &&& get_member(get_member(result, "message"@), "text"@) == Some(
                    JsonModel::Str(d.message@),
                )
                &&& get_member(get_member(physical, "artifactLocation"@), "uri"@) == Some(
                    JsonModel::Str(d.path@),
                )
                &&& (region is None <==> (d.start_line is None && d.start_column is None))
                &&& get_member(region, "startLine"@) == match d.start_line {
                    Some(l) => Some(JsonModel::UInt(l)),
                    None => None::<JsonModel>,
                }
                &&& get_member(region, "startColumn"@) == match d.start_column {
                    Some(c) => Some(JsonModel::UInt(c)),
                    None => None::<JsonModel>,
                }
            },
{
    reveal_strlit("tool");
    reveal_strlit("results");
    reveal_strlit("driver");
    reveal_strlit("name");
    reveal_strlit("rules");
    reveal_with_fuel(member_value, 3);
    assert("tool"@.len() == 4);
    assert("results"@.len() == 7);
    assert("driver"@.len() == 6);
    assert("name"@.len() == 4);
    assert("rules"@.len() == 5);
    let m = run.model();
    let top = m->Object_0;
    assert(top.drop_first() =~= seq![top[1]]);
    let driver = seq![("name"@, JsonModel::Str(tool_name)), top[0].1->Object_0[0].1->Object_0[1]];
    assert(top[0].1->Object_0[0].1->Object_0.drop_first() =~= seq![top[0].1->Object_0[0].1->Object_0[1]]);
    let results = diagnostics.map_values(|d: HookDiagnostic| result_model(d));
    assert(get_member(Some(m), "results"@) == Some(JsonModel::Array(results)));
    assert forall|i: int| 0 <= i < diagnostics.len() implies {
        let d = #[trigger] diagnostics[i];
        let result = get_item(get_member(Some(m), "results"@), i);
        let physical = get_member(get_item(get_member(result, "locations"@), 0), "physicalLocation"@);
        let region = get_member(physical, "region"@);
        &&& get_member(result, "ruleId"@) == Some(JsonModel::Str(d.rule_id@))
        &&& get_member(result, "level"@) == Some(JsonModel::Str("error"@))
        &&& get_member(get_member(result, "message"@), "text"@) == Some(JsonModel::Str(d.message@))
        &&& get_member(get_member(physical, "artifactLocation"@), "uri"@) == Some(JsonModel::Str(d.path@))
        &&& (region is None <==> (d.start_line is None && d.start_column is None))
        &&& get_member(region, "startLine"@) == match d.start_line {
            Some(l) => Some(JsonModel::UInt(l)),
            None => None::<JsonModel>,
        }
        &&& get_member(region, "startColumn"@) == match d.start_column {
            Some(c) => Some(JsonModel::UInt(c)),
            None => None::<JsonModel>,
        }
    } by {
        assert(get_item(get_member(Some(m), "results"@), i) == Some(result_model(diagnostics[i])));
        lemma_result_holds(diagnostics[i]);
    }
}

/// A SARIF log (an object whose `runs` member is an array) is accepted,
/// whatever the array holds, none included: its items are added after the
/// runs already collected.
pub proof fn law_sarif_log_is_accepted(
    before: Seq<Json>,
    after: Seq<Json>,
    members: Vec<(String, Json)>,
    i: int,
    items: Vec<Json>,
    bytes: Seq<u8>,
    result: Result<(), SarifError>,
)
    requires
        pushed(before, after, seq![Ok(Json::Object(members))], bytes, result),
        0 <= i < members@.len(),
        members@[i].0@ == "runs"@,
        forall|j: int| 0 <= j < i ==> #[trigger] members@[j].0@ != "runs"@,
        members@[i].1 == Json::Array(items),
    ensures
        result == Ok::<(), SarifError>(()),
        after == before + items@,
{
    let doc = Json::Object(members);
    assert(is_first_member(members@, "runs"@, i));
    assert forall|k: int| is_first_member(members@, "runs"@, k) implies k == i by {
        if k < i {
            assert(members@[k].0@ != "runs"@);
        } else if k > i {
            assert(members@[i].0@ != "runs"@);
        }
    }
    assert(carried_runs(doc) == Some(items@));
    let docs = seq![Ok::<Json, String>(doc)];
    assert(docs[0] == Ok::<Json, String>(doc));
    assert(docs.drop_first() =~= Seq::<Result<Json, String>>::empty());
    assert(absorb(before + items@, Seq::<Result<Json, String>>::empty()) == (before + items@, None::<SarifError>));
    assert(absorb(before, docs) == absorb(before + items@, docs.drop_first()));
}

/// A single SARIF run (an object with a `tool` member and no `runs` array)
/// is accepted and added, whole, after the runs already collected.
pub proof fn law_single_run_is_accepted(
    before: Seq<Json>,
    after: Seq<Json>,
    members: Vec<(String, Json)>,
    t: int,
    bytes: Seq<u8>,
    result: Result<(), SarifError>,
)
    requires
        pushed(before, after, seq![Ok(Json::Object(members))], bytes, result),
        forall|j: int| 0 <= j < members@.len() && #[trigger] members@[j].0@ == "runs"@ ==> !(members@[j].1 is Array),
        0 <= t < members@.len(),
        members@[t].0@ == "tool"@,
    ensures
        result == Ok::<(), SarifError>(()),
        after == before.push(Json::Object(members)),
{
    let doc = Json::Object(members);
    assert(carried_runs(doc) is None);
    assert(has_member(doc, "tool"@));
    let docs = seq![Ok::<Json, String>(doc)];
    assert(docs[0] == Ok::<Json, String>(doc));
    assert(docs.drop_first() =~= Seq::<Result<Json, String>>::empty());
    assert(absorb(before.push(doc), Seq::<Result<Json, String>>::empty()) == (before.push(doc), None::<SarifError>));
    assert(absorb(before, docs) == absorb(before.push(doc), docs.drop_first()));
}

/// A JSON document that is neither a SARIF log nor a run (it has no `runs`
/// array and no `tool` member) is refused as not SARIF, and nothing is added.
pub proof fn law_other_json_is_not_sarif(
    before: Seq<Json>,
    after: Seq<Json>,
    doc: Json,
    bytes: Seq<u8>,
    result: Result<(), SarifError>,
)
    requires
        pushed(before, after, seq![Ok(doc)], bytes, result),
        doc matches Json::Object(members) ==> forall|j: int|
            0 <= j < members@.len() ==> #[trigger] members@[j].0@ != "runs"@ && members@[j].0@ != "tool"@,
    ensures
        result == Err::<(), SarifError>(SarifError::NotSarif),
        after == before,
{
    if let Json::Object(members) = doc {
        if exists|k: int| is_first_member(members@, "runs"@, k) {
            let k = choose|k: int| is_first_member(members@, "runs"@, k);
            assert(members@[k].0@ != "runs"@);
        }
        if has_member(doc, "tool"@) {
            let k = choose|k: int| 0 <= k < members@.len() && #[trigger] members@[k].0@ == "tool"@;
            assert(members@[k].0@ != "tool"@);
        }
    }
}

/// What the SARIF rule entry of a rule id holds.
proof fn lemma_rule_holds(r: Seq<char>, hook_id: Seq<char>)
    ensures
        get_member(Some(rule_model(r, hook_id)), "id"@) == Some(JsonModel::Str(r)),
        get_member(Some(rule_model(r, hook_id)), "name"@) == Some(JsonModel::Str(r)),
        get_member(get_member(Some(rule_model(r, hook_id)), "shortDescription"@), "text"@) == Some(
            JsonModel::Str(hook_id + " violation"@),
        ),
{
    reveal_strlit("id");
    reveal_strlit("name");
    reveal_strlit("shortDescription");
    reveal_strlit("text");
    assert("id"@.len() == 2);
    assert("name"@.len() == 4);
    assert("shortDescription"@.len() == 16);
    assert("text"@.len() == 4);
    reveal_with_fuel(member_value, 4);
    let members = rule_model(r, hook_id)->Object_0;
    assert(members.drop_first() =~= seq![members[1], members[2]]);
    assert(members.drop_first().drop_first() =~= seq![members[2]]);
}

/// The rule entries built for the findings: each names the rule id of some
/// finding, each finding's rule id has one, and no two share an id.
proof fn lemma_rule_entries(hook_id: Seq<char>, diagnostics: Seq<HookDiagnostic>)
    ensures
        ({
            let rs = first_occurrences(rule_ids(diagnostics)).map_values(
                |r: Seq<char>| rule_model(r, hook_id),
            );
            &&& forall|k: int|
                0 <= k < rs.len() ==> exists|i: int|
                    #![trigger diagnostics[i]]
                    0 <= i < diagnostics.len() && {
                        let rule = Some(#[trigger] rs[k]);
                        &&& get_member(rule, "id"@) == Some(JsonModel::Str(diagnostics[i].rule_id@))
                        &&& get_member(rule, "name"@) == Some(JsonModel::Str(diagnostics[i].rule_id@))
                        &&& get_member(get_member(rule, "shortDescription"@), "text"@) == Some(
                            JsonModel::Str(hook_id + " violation"@),
                        )
                    }
            &&& forall|i: int|
                0 <= i < diagnostics.len() ==> exists|k: int|
                    0 <= k < rs.len() && get_member(Some(#[trigger] rs[k]), "id"@) == Some(
                        JsonModel::Str(#[trigger] diagnostics[i].rule_id@),
                    )
            &&& forall|k1: int, k2: int|
                0 <= k1 < rs.len() && 0 <= k2 < rs.len() && k1 != k2 ==> get_member(
                    Some(#[trigger] rs[k1]),
                    "id"@,
                ) != get_member(Some(#[trigger] rs[k2]), "id"@)
        }),
{
    let ids = rule_ids(diagnostics);
    let firsts = first_occurrences(ids);
    law_rules_list_each_rule_once(ids);
    let rs = firsts.map_values(|r: Seq<char>| rule_model(r, hook_id));
    assert forall|k: int| 0 <= k < rs.len() implies exists|i: int|
        #![trigger diagnostics[i]]
        0 <= i < diagnostics.len() && {
            let rule = Some(#[trigger] rs[k]);
            &&& get_member(rule, "id"@) == Some(JsonModel::Str(diagnostics[i].rule_id@))
            &&& get_member(rule, "name"@) == Some(JsonModel::Str(diagnostics[i].rule_id@))
            &&& get_member(get_member(rule, "shortDescription"@), "text"@) == Some(
                JsonModel::Str(hook_id + " violation"@),
            )
        } by {
        lemma_rule_holds(firsts[k], hook_id);
        assert(firsts.contains(firsts[k]));
        assert(ids.contains(firsts[k]));
        let i = choose|i: int| 0 <= i < ids.len() && ids[i] == firsts[k];
        assert(ids[i] == diagnostics[i].rule_id@);
    }
    assert forall|i: int| 0 <= i < diagnostics.len() implies exists|k: int|
        0 <= k < rs.len() && get_member(Some(#[trigger] rs[k]), "id"@) == Some(
            JsonModel::Str(#[trigger] diagnostics[i].rule_id@),
        ) by {
        assert(ids[i] == diagnostics[i].rule_id@);
        assert(ids.contains(ids[i]));
        assert(firsts.contains(ids[i]));
        let k = choose|k: int| 0 <= k < firsts.len() && firsts[k] == ids[i];
        lemma_rule_holds(firsts[k], hook_id);
        assert(rs[k] == rule_model(firsts[k], hook_id));
        assert(get_member(Some(rs[k]), "id"@) == Some(JsonModel::Str(diagnostics[i].rule_id@)));
    }
    assert forall|k1: int, k2: int|
        0 <= k1 < rs.len() && 0 <= k2 < rs.len() && k1 != k2 implies get_member(
        Some(#[trigger] rs[k1]),
        "id"@,
    ) != get_member(Some(#[trigger] rs[k2]), "id"@) by {
        lemma_rule_holds(firsts[k1], hook_id);
        lemma_rule_holds(firsts[k2], hook_id);
        assert(firsts[k1] != firsts[k2]);
    }
}

/// The rules of a SARIF run list each rule id of the findings once and no
/// other: every rule names a rule id of some finding (as its id and its
/// name) and is described as a violation of the hook, every finding's rule
/// id has a rule, and no two rules share an id.
pub proof fn law_run_lists_each_rule_once(
    run: Json,
    tool_name: Seq<char>,
    hook_id: Seq<char>,
    diagnostics: Seq<HookDiagnostic>,
)
    requires
        run.model() == sarif_run_model(tool_name, hook_id, diagnostics),
    ensures
        ({
            let rules = get_member(
                get_member(get_member(Some(run.model()), "tool"@), "driver"@),
                "rules"@,
            );
            &&& rules is Some
            &&& rules->Some_0 is Array
            &&& forall|k: int|
                0 <= k < rules->Some_0->Array_0.len() ==> exists|i: int|
                    #![trigger diagnostics[i]]
                    0 <= i < diagnostics.len() && {
                        let rule = Some(#[trigger] rules->Some_0->Array_0[k]);
                        &&& get_member(rule, "id"@) == Some(JsonModel::Str(diagnostics[i].rule_id@))
                        &&& get_member(rule, "name"@) == Some(JsonModel::Str(diagnostics[i].rule_id@))
                        &&& get_member(get_member(rule, "shortDescription"@), "text"@) == Some(
                            JsonModel::Str(hook_id + " violation"@),
                        )
                    }
            &&& forall|i: int|
                0 <= i < diagnostics.len() ==> exists|k: int|
                    0 <= k < rules->Some_0->Array_0.len() && get_member(
                        Some(#[trigger] rules->Some_0->Array_0[k]),
                        "id"@,
                    ) == Some(JsonModel::Str(#[trigger] diagnostics[i].rule_id@))
            &&& forall|k1: int, k2: int|
                0 <= k1 < rules->Some_0->Array_0.len() && 0 <= k2 < rules->Some_0->Array_0.len()
                    && k1 != k2 ==> get_member(Some(#[trigger] rules->Some_0->Array_0[k1]), "id"@)
                    != get_member(Some(#[trigger] rules->Some_0->Array_0[k2]), "id"@)
        }),
{
    reveal_strlit("tool");
    reveal_strlit("results");
    reveal_strlit("driver");
    reveal_strlit("name");
    reveal_strlit("rules");
    assert("tool"@.len() == 4);
    assert("results"@.len() == 7);
    assert("driver"@.len() == 6);
    assert("name"@.len() == 4);
    assert("rules"@.len() == 5);
    reveal_with_fuel(member_value, 3);
    let rs = first_occurrences(rule_ids(diagnostics)).map_values(
        |r: Seq<char>| rule_model(r, hook_id),
    );
    let m = run.model();
    let top = m->Object_0;
    assert(top.drop_first() =~= seq![top[1]]);
    let driver_members = top[0].1->Object_0[0].1->Object_0;
    assert(driver_members.drop_first() =~= seq![driver_members[1]]);
    let rules = get_member(get_member(get_member(Some(m), "tool"@), "driver"@), "rules"@);
    assert(rules == Some(JsonModel::Array(rs)));
    lemma_rule_entries(hook_id, diagnostics);
}

/// Whether two lists of strings hold the same texts, one by one.
pub open spec fn same_texts(a: Seq<String>, b: Seq<String>) -> bool {
    &&& a.len() == b.len()
    &&& forall|k: int| 0 <= k < a.len() ==> #[trigger] a[k]@ == b[k]@
}

/// Lists with equal texts hold the same texts one by one.
proof fn lemma_same_texts(a: Seq<String>, b: Seq<String>)
    requires
        texts(a) == texts(b),
    ensures
        same_texts(a, b),
{
    assert(texts(a).len() == a.len());
    assert(texts(b).len() == b.len());
    assert forall|k: int| 0 <= k < a.len() implies #[trigger] a[k]@ == b[k]@ by {
        assert(texts(a)[k] == texts(b)[k]);
    }
}

/// An adaptor YAML with flags, no binary, for a hook that has no embedded
/// binary, gives exactly its flags and no adapter.
pub proof fn law_adaptor_flags_only(
    adaptor: AdaptorYaml,
    hook_id: Seq<char>,
    result: Result<SarifStrategy, SarifError>,
)
    requires
        adaptor_strategy(adaptor, false, hook_id, result),
        adaptor.binary is None,
        adaptor.flags@.len() > 0,
    ensures
        result matches Ok(SarifStrategy::Combined { flags, adapter: None }) && same_texts(
            flags@,
            adaptor.flags@,
        ),
{
    if let Ok(SarifStrategy::Combined { flags, adapter: None }) = result {
        lemma_same_texts(flags@, adaptor.flags@);
    }
}

/// An adaptor YAML with neither flags nor a binary, for a hook that has no
/// embedded binary, is refused as empty.
pub proof fn law_adaptor_without_flags_or_binary_is_refused(
    adaptor: AdaptorYaml,
    hook_id: Seq<char>,
    result: Result<SarifStrategy, SarifError>,
)
    requires
        adaptor_strategy(adaptor, false, hook_id, result),
        adaptor.binary is None,
        adaptor.flags@.len() == 0,
    ensures
        result matches Err(SarifError::EmptyAdaptor),
{
}

/// An adaptor YAML without a binary, for a hook whose binary the build
/// embedded, runs that embedded binary with the YAML's arguments, after the
/// YAML's flags.
pub proof fn law_adaptor_uses_embedded_binary(
    adaptor: AdaptorYaml,
    hook_id: Seq<char>,
    result: Result<SarifStrategy, SarifError>,
)
    requires
        adaptor_strategy(adaptor, true, hook_id, result),
        adaptor.binary is None,
    ensures
        result matches Ok(SarifStrategy::Combined { flags, adapter: Some(a) }) && {
            &&& a.binary@ == "embedded://"@ + hook_id
            &&& same_texts(a.args@, adaptor.args@)
            &&& same_texts(flags@, adaptor.flags@)
        },
{
    if let Ok(SarifStrategy::Combined { flags, adapter: Some(a) }) = result {
        lemma_same_texts(flags@, adaptor.flags@);
        lemma_same_texts(a.args@, adaptor.args@);
    }
}

/// An adaptor YAML whose binary is no Nim source runs that binary as it is,
/// with the YAML's arguments and flags, whatever the hook and whatever the
/// build embedded.
pub proof fn law_adaptor_runs_its_binary(
    adaptor: AdaptorYaml,
    has_embedded_binary: bool,
    hook_id: Seq<char>,
    result: Result<SarifStrategy, SarifError>,
)
    requires
        adaptor_strategy(adaptor, has_embedded_binary, hook_id, result),
        adaptor.binary matches Some(b) && !ends_with(b@, ".nim"@),
    ensures
        result matches Ok(SarifStrategy::Combined { flags, adapter: Some(a) }) && {
            &&& a.binary@ == adaptor.binary->Some_0@
            &&& same_texts(a.args@, adaptor.args@)
            &&& same_texts(flags@, adaptor.flags@)
        },
{
    if let Ok(SarifStrategy::Combined { flags, adapter: Some(a) }) = result {
        lemma_same_texts(flags@, adaptor.flags@);
        lemma_same_texts(a.args@, adaptor.args@);
    }
}

/// A hook of which the build embedded neither a YAML nor a binary has no
/// embedded strategy.
pub proof fn law_nothing_embedded_gives_none(
    catalog: EmbeddedCatalog,
    hook_id: Seq<char>,
    result: Result<Option<SarifStrategy>, SarifError>,
)
    requires
        embedded_resolution(catalog, hook_id, result),
        forall|i: int| 0 <= i < catalog.binaries@.len() ==> #[trigger] catalog.binaries@[i]@ != hook_id,
        forall|i: int| 0 <= i < catalog.yamls@.len() ==> #[trigger] catalog.yamls@[i].name@ != hook_id,
    ensures
        result matches Ok(None),
{
}

/// A hook of which the build embedded a binary and no YAML runs that binary,
/// with no arguments and no flags.
pub proof fn law_embedded_binary_alone(
    catalog: EmbeddedCatalog,
    hook_id: Seq<char>,
    j: int,
    result: Result<Option<SarifStrategy>, SarifError>,
)
    requires
        embedded_resolution(catalog, hook_id, result),
        0 <= j < catalog.binaries@.len(),
        catalog.binaries@[j]@ == hook_id,
        forall|i: int| 0 <= i < catalog.yamls@.len() ==> #[trigger] catalog.yamls@[i].name@ != hook_id,
    ensures
        result matches Ok(Some(SarifStrategy::Combined { flags, adapter: Some(a) })) && {
            &&& flags@.len() == 0
            &&& a.binary@ == "embedded://"@ + hook_id
            &&& a.args@.len() == 0
        },
{
    assert(has_embedded_binary(catalog, hook_id));
    if let Ok(Some(SarifStrategy::Combined { flags, adapter: Some(a) })) = result {
        assert(texts(flags@).len() == flags@.len());
        assert(texts(a.args@).len() == a.args@.len());
    }
}

/// A hook whose first embedded YAML did not parse gets an error that names
/// the hook and carries what the parser said, whatever else was embedded.
pub proof fn law_embedded_yaml_failure_is_reported(
    catalog: EmbeddedCatalog,
    hook_id: Seq<char>,
    i: int,
    result: Result<Option<SarifStrategy>, SarifError>,
)
    requires
        embedded_resolution(catalog, hook_id, result),
        0 <= i < catalog.yamls@.len(),
        catalog.yamls@[i].name@ == hook_id,
        forall|j: int| 0 <= j < i ==> #[trigger] catalog.yamls@[j].name@ != hook_id,
        catalog.yamls@[i].parsed is Err,
    ensures
        result matches Err(SarifError::EmbeddedYaml { hook_id: h, detail: d }) && h@ == hook_id
            && d@ == catalog.yamls@[i].parsed->Err_0@,
{
    assert(is_first_yaml(catalog, hook_id, i));
    assert(has_embedded_yaml(catalog, hook_id));
}

/// A stream whose first document did not parse adds no run and reports what
/// the parser said, whatever follows.
pub proof fn law_parse_failure_stops_push(
    before: Seq<Json>,
    after: Seq<Json>,
    detail: String,
    rest: Seq<Result<Json, String>>,
    bytes: Seq<u8>,
    result: Result<(), SarifError>,
)
    requires
        pushed(before, after, seq![Err::<Json, String>(detail)] + rest, bytes, result),
    ensures
        result matches Err(SarifError::InvalidJson(d)) && d@ == detail@,
        after == before,
{
    let documents = seq![Err::<Json, String>(detail)] + rest;
    assert(documents[0] == Err::<Json, String>(detail));
}

/// Output in which the parser found no document adds no run: it is accepted
/// when every byte of it is ASCII whitespace (no output at all included),
/// and refused as not SARIF otherwise.
pub proof fn law_output_without_documents(
    before: Seq<Json>,
    after: Seq<Json>,
    bytes: Seq<u8>,
    result: Result<(), SarifError>,
)
    requires
        pushed(before, after, Seq::empty(), bytes, result),
    ensures
        after == before,
        result is Ok <==> forall|i: int|
            0 <= i < bytes.len() ==> {
                let b = #[trigger] bytes[i];
                b == 0x20u8 || b == 0x09u8 || b == 0x0Au8 || b == 0x0Cu8 || b == 0x0Du8
            },
        result is Err ==> result == Err::<(), SarifError>(SarifError::NotSarif),
        bytes.len() == 0 ==> result is Ok,
{
}

/// Whether, in `ids`, every occurrence of `b` comes after an occurrence of
/// `a`.
pub open spec fn comes_first(ids: Seq<Seq<char>>, a: Seq<char>, b: Seq<char>) -> bool {
    forall|i: int|
        0 <= i < ids.len() && #[trigger] ids[i] == b ==> exists|j: int|
            0 <= j < i && #[trigger] ids[j] == a
}

/// The rule ids are listed in the order of their first occurrence: before
/// any occurrence of a later rule id there is an occurrence of each earlier
/// one.
proof fn lemma_first_occurrences_order(ids: Seq<Seq<char>>)
    ensures
        forall|k1: int, k2: int|
            0 <= k1 < k2 < first_occurrences(ids).len() ==> comes_first(
                ids,
                #[trigger] first_occurrences(ids)[k1],
                #[trigger] first_occurrences(ids)[k2],
            ),
    decreases ids.len(),
{
    if ids.len() > 0 {
        let rest = ids.drop_last();
        let last = ids.last();
        let n = rest.len() as int;
        lemma_first_occurrences_order(rest);
        law_rules_list_each_rule_once(rest);
        let earlier = first_occurrences(rest);
        let firsts = first_occurrences(ids);
        assert forall|k1: int, k2: int| 0 <= k1 < k2 < firsts.len() implies comes_first(
            ids,
            #[trigger] firsts[k1],
            #[trigger] firsts[k2],
        ) by {
            assert(firsts[k1] == earlier[k1]);
            assert forall|i: int| 0 <= i < ids.len() && #[trigger] ids[i] == firsts[k2] implies exists|j: int|
                0 <= j < i && #[trigger] ids[j] == firsts[k1] by {
                if i < n {
                    assert(ids[i] == rest[i]);
                    if k2 < earlier.len() {
                        assert(firsts[k2] == earlier[k2]);
                        assert(comes_first(rest, earlier[k1], earlier[k2]));
                        let j = choose|j: int| 0 <= j < i && #[trigger] rest[j] == earlier[k1];
                        assert(ids[j] == rest[j]);
                    } else {
                        assert(firsts[k2] == last);
                        assert(rest.contains(last));
                        assert(earlier.contains(last));
                    }
                } else {
                    assert(ids[i] == last);
                    if k2 < earlier.len() {
                        assert(firsts[k2] == earlier[k2]);
                        assert(earlier.contains(earlier[k2]));
                        assert(rest.contains(earlier[k2]));
                        let i2 = choose|i2: int| 0 <= i2 < rest.len() && rest[i2] == earlier[k2];
                        assert(comes_first(rest, earlier[k1], earlier[k2]));
                        assert(rest[i2] == earlier[k2]);
                        let j = choose|j: int| 0 <= j < i2 && #[trigger] rest[j] == earlier[k1];
                        assert(ids[j] == rest[j]);
                    } else {
                        assert(earlier.contains(earlier[k1]));
                        assert(rest.contains(earlier[k1]));
                        let j = choose|j: int| 0 <= j < rest.len() && rest[j] == earlier[k1];
                        assert(ids[j] == rest[j]);
                    }
                }
            }
        }
    }
}

/// The rules of a SARIF run come in the order in which their rule ids first
/// occur among the findings: a finding of a later rule always has a finding
/// of each earlier rule before it.
pub proof fn law_rules_follow_first_occurrence(
    run: Json,
    tool_name: Seq<char>,
    hook_id: Seq<char>,
    diagnostics: Seq<HookDiagnostic>,
)
    requires
        run.model() == sarif_run_model(tool_name, hook_id, diagnostics),
    ensures
        ({
            let rules = get_member(
                get_member(get_member(Some(run.model()), "tool"@), "driver"@),
                "rules"@,
            );
            &&& rules matches Some(JsonModel::Array(_))
            &&& forall|k1: int, k2: int, i: int|
                #![trigger rules->Some_0->Array_0[k1], rules->Some_0->Array_0[k2], diagnostics[i]]
                0 <= k1 < k2 < rules->Some_0->Array_0.len() && 0 <= i < diagnostics.len()
                    && get_member(Some(rules->Some_0->Array_0[k2]), "id"@) == Some(
                    JsonModel::Str(diagnostics[i].rule_id@),
                ) ==> exists|j: int|
                    #![trigger diagnostics[j]]
                    0 <= j < i && get_member(Some(rules->Some_0->Array_0[k1]), "id"@) == Some(
                        JsonModel::Str(diagnostics[j].rule_id@),
                    )
        }),
{
    reveal_strlit("tool");
    reveal_strlit("results");
    reveal_strlit("driver");
    reveal_strlit("name");
    reveal_strlit("rules");
    assert("tool"@.len() == 4);
    assert("results"@.len() == 7);
    assert("driver"@.len() == 6);
    assert("name"@.len() == 4);
    assert("rules"@.len() == 5);
    reveal_with_fuel(member_value, 3);
    let ids = rule_ids(diagnostics);
    let firsts = first_occurrences(ids);
    let rs = firsts.map_values(|r: Seq<char>| rule_model(r, hook_id));
    let m = run.model();
    let top = m->Object_0;
    assert(top.drop_first() =~= seq![top[1]]);
    let driver_members = top[0].1->Object_0[0].1->Object_0;
    assert(driver_members.drop_first() =~= seq![driver_members[1]]);
    let rules = get_member(get_member(get_member(Some(m), "tool"@), "driver"@), "rules"@);
    assert(rules == Some(JsonModel::Array(rs)));
    lemma_first_occurrences_order(ids);
    assert forall|k1: int, k2: int, i: int|
        #![trigger rs[k1], rs[k2], diagnostics[i]]
        0 <= k1 < k2 < rs.len() && 0 <= i < diagnostics.len() && get_member(Some(rs[k2]), "id"@)
            == Some(JsonModel::Str(diagnostics[i].rule_id@)) implies exists|j: int|
        #![trigger diagnostics[j]]
        0 <= j < i && get_member(Some(rs[k1]), "id"@) == Some(
            JsonModel::Str(diagnostics[j].rule_id@),
        ) by {
        lemma_rule_holds(firsts[k1], hook_id);
        lemma_rule_holds(firsts[k2], hook_id);
        assert(ids[i] == diagnostics[i].rule_id@);
        assert(ids[i] == firsts[k2]);
        assert(comes_first(ids, firsts[k1], firsts[k2]));
        let j = choose|j: int| 0 <= j < i && #[trigger] ids[j] == firsts[k1];
        assert(ids[j] == diagnostics[j].rule_id@);
    }
}

} // verus!
