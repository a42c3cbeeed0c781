use std::sync::Arc;

use vstd::prelude::*;

use crate::env::EnvVars;
use crate::text::{copy_strings, texts};

verus! {

/// A hook's own SARIF configuration.
#[derive(Debug)]
pub enum SarifConfig {
    /// Native SARIF output through extra arguments.
    Flags { args: Vec<String> },
    /// An adapter program that converts the hook's output.
    Adapter { binary: String, args: Vec<String> },
}

/// The value of a [`SarifConfig`], with strings taken by their characters.
pub enum SarifConfigView {
    Flags { args: Seq<Seq<char>> },
    Adapter { binary: Seq<char>, args: Seq<Seq<char>> },
}

impl View for SarifConfig {
    type V = SarifConfigView;

    open spec fn view(&self) -> SarifConfigView {
        match self {
            SarifConfig::Flags { args } => SarifConfigView::Flags { args: texts(args@) },
            SarifConfig::Adapter { binary, args } => SarifConfigView::Adapter {
                binary: binary@,
                args: texts(args@),
            },
        }
    }
}

impl SarifConfig {
    /// A copy of this configuration.
    pub fn duplicate(&self) -> (copy: SarifConfig)
        ensures
            copy@ == self@,
    {
        match self {
            SarifConfig::Flags { args } => SarifConfig::Flags { args: copy_strings(args) },
            SarifConfig::Adapter { binary, args } => SarifConfig::Adapter {
                binary: binary.clone(),
                args: copy_strings(args),
            },
        }
    }
}

/// A hook, with what the SARIF handling reads of it.
#[derive(Debug)]
pub struct Hook {
    pub id: String,
    pub args: Vec<String>,
    pub env: EnvVars,
    pub sarif: Option<SarifConfig>,
}

/// The value of a [`Hook`].
pub struct HookView {
    pub id: Seq<char>,
    pub args: Seq<Seq<char>>,
    pub env: Map<Seq<char>, Seq<char>>,
    pub sarif: Option<SarifConfigView>,
}

impl View for Hook {
    type V = HookView;

    open spec fn view(&self) -> HookView {
        HookView {
            id: self.id@,
            args: texts(self.args@),
            env: self.env@,
            sarif: match self.sarif {
                Some(c) => Some(c@),
                None => None,
            },
        }
    }
}

impl Hook {
    /// A copy of this hook with `args` in place of its arguments.
    fn with_args(&self, args: Vec<String>) -> (copy: Hook)
        ensures
            copy@ == (HookView { args: texts(args@), ..self@ }),
    {
        let sarif = match &self.sarif {
            Some(c) => Some(c.duplicate()),
            None => None,
        };
        Hook { id: self.id.clone(), args, env: self.env.duplicate(), sarif }
    }
}

/// A hook that is ready to run, with what its installation recorded.
#[derive(Debug)]
pub enum InstalledHook<Info> {
    Installed { hook: Arc<Hook>, info: Arc<Info> },
    NoNeedInstall(Arc<Hook>),
}

impl<Info> InstalledHook<Info> {
    /// The value of the hook itself.
    pub open spec fn hook_view(self) -> HookView {
        match self {
            InstalledHook::Installed { hook, .. } => hook@,
            InstalledHook::NoNeedInstall(hook) => hook@,
        }
    }

    /// Whether `other` is installed in the same way: the same variant and the
    /// same installation record.
    pub open spec fn same_install(self, other: Self) -> bool {
        match (self, other) {
            (InstalledHook::Installed { info: a, .. }, InstalledHook::Installed { info: b, .. }) => a
                == b,
            (InstalledHook::NoNeedInstall(_), InstalledHook::NoNeedInstall(_)) => true,
            _ => false,
        }
    }
}

/// Whether `after` is `before` with `flags` added after the hook's
/// arguments, and nothing else changed.
pub open spec fn adds_flags<Info>(
    before: InstalledHook<Info>,
    after: InstalledHook<Info>,
    flags: Seq<Seq<char>>,
) -> bool {
    &&& before.same_install(after)
    &&& after.hook_view() == (HookView { args: before.hook_view().args + flags, ..before.hook_view() })
}

/// Whether `after` is `before` with the environment variable `key` of the
/// hook set to `value`, and nothing else changed.
pub open spec fn sets_env<Info>(
    before: InstalledHook<Info>,
    after: InstalledHook<Info>,
    key: Seq<char>,
    value: Seq<char>,
) -> bool {
    &&& before.same_install(after)
    &&& after.hook_view() == (HookView { env: before.hook_view().env.insert(key, value), ..before.hook_view() })
}

/// Calls `Arc::clone`, which gives another pointer to the same value: the
/// copy is the value itself.
#[verifier::external_body]
fn share<T>(value: &Arc<T>) -> (copy: Arc<T>)
    ensures
        copy == *value,
{
    Arc::clone(value)
}

/// The same installed hook, whose hook is `hook` in place of its own.
fn rewrap<Info>(installed: &InstalledHook<Info>, hook: Hook) -> (out: InstalledHook<Info>)
    ensures
        installed.same_install(out),
        out.hook_view() == hook@,
{
    match installed {
        InstalledHook::Installed { info, .. } => InstalledHook::Installed {
            hook: Arc::new(hook),
            info: share(info),
        },
        InstalledHook::NoNeedInstall(_) => InstalledHook::NoNeedInstall(Arc::new(hook)),
    }
}

/// The hook of an installed hook.
fn hook_of<Info>(installed: &InstalledHook<Info>) -> (hook: &Hook)
    ensures
        hook@ == installed.hook_view(),
{
    match installed {
        InstalledHook::Installed { hook, .. } => hook,
        InstalledHook::NoNeedInstall(hook) => hook,
    }
}

/// The installed hook with `flags` added after its arguments.
pub fn with_native_flags<Info>(hook: &InstalledHook<Info>, flags: &[String]) -> (out: InstalledHook<Info>)
    ensures
        adds_flags(*hook, out, texts(flags@)),
{
    let inner = hook_of(hook);
    let mut args = copy_strings(&inner.args);
    let ghost start = args@;
    let mut i: usize = 0;
    while i < flags.len()
        invariant
            i <= flags@.len(),
            args@ == start + flags@.take(i as int),
        decreases flags@.len() - i,
    {
        args.push(flags[i].clone());
        i += 1;
        assert(args@ =~= start + flags@.take(i as int));
    }
    assert(flags@.take(i as int) =~= flags@);
    assert(texts(args@) =~= texts(inner.args@) + texts(flags@));
    rewrap(hook, inner.with_args(args))
}

/// The installed hook with the environment variable `key` set to `value`.
pub fn with_env_var<Info>(hook: &InstalledHook<Info>, key: &str, value: &str) -> (out: InstalledHook<Info>)
    ensures
        sets_env(*hook, out, key@, value@),
{
    let inner = hook_of(hook);
    let mut copy = inner.with_args(copy_strings(&inner.args));
    copy.env.insert(String::from_str(key), String::from_str(value));
    rewrap(hook, copy)
}

} // verus!
