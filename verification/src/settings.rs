//! Immutable configuration values with defined defaults, and the layered
//! resolution stack that lets global and test-level overrides compose
//! without mutation.

use vstd::prelude::*;
use vstd::string::StringExecFns;

verus! {

/// Default timeout for a test script, in milliseconds.
pub const DEFAULT_TIMEOUT_MS: u32 = 5000;

/// Default timeout for before/after scripts, in milliseconds.
pub const DEFAULT_SETUP_TIMEOUT_MS: u32 = 5000;

/// Default ceiling on the number of tests run at the same time.
pub const DEFAULT_MAX_TEST_CONCURRENCY: usize = 64;

/// The mathematical content of a `Settings` value: every scalar field as
/// an `Option`, and the extra environment as an ordered sequence of
/// key/value pairs.
#[verifier::ext_equal]
pub struct SettingsView {
    pub timeout: Option<u32>,
    pub setup_timeout: Option<u32>,
    pub command: Option<Seq<char>>,
    pub clear_env: Option<bool>,
    pub should_fail: Option<bool>,
    pub env: Seq<(Seq<char>, Seq<char>)>,
}

/// The sequence of key/value pairs held by an environment list.
pub open spec fn env_view(s: Seq<(String, String)>) -> Seq<(Seq<char>, Seq<char>)> {
    s.map_values(|p: (String, String)| (p.0@, p.1@))
}

/// The view of an optional string.
pub open spec fn opt_str_view(o: Option<String>) -> Option<Seq<char>> {
    match o {
        Some(s) => Some(s@),
        None => None,
    }
}

/// One layer of configuration: every field optional, so that a stack of
/// layers can be resolved field by field.
pub struct Settings {
    timeout: Option<u32>,
    setup_timeout: Option<u32>,
    command: Option<String>,
    clear_env: Option<bool>,
    should_fail: Option<bool>,
    env: Vec<(String, String)>,
}

impl View for Settings {
    type V = SettingsView;

    closed spec fn view(&self) -> SettingsView {
        SettingsView {
            timeout: self.timeout,
            setup_timeout: self.setup_timeout,
            command: opt_str_view(self.command),
            clear_env: self.clear_env,
            should_fail: self.should_fail,
            env: env_view(self.env@),
        }
    }
}

impl SettingsView {
    /// The timeout this single layer yields on its own.
    pub open spec fn timeout_or_default(self) -> u32 {
        match self.timeout {
            Some(t) => t,
            None => DEFAULT_TIMEOUT_MS,
        }
    }

    /// The setup timeout this single layer yields on its own.
    pub open spec fn setup_timeout_or_default(self) -> u32 {
        match self.setup_timeout {
            Some(t) => t,
            None => DEFAULT_SETUP_TIMEOUT_MS,
        }
    }

    /// The interpreter invocation this single layer yields on its own.
    pub open spec fn command_or_default(self) -> Seq<char> {
        match self.command {
            Some(c) => c,
            None => "sh -c"@,
        }
    }

    /// The environment-clearing choice this single layer yields on its own.
    pub open spec fn clear_env_or_default(self) -> bool {
        match self.clear_env {
            Some(c) => c,
            None => false,
        }
    }

    /// The success-inversion choice this single layer yields on its own.
    pub open spec fn should_fail_or_default(self) -> bool {
        match self.should_fail {
            Some(c) => c,
            None => false,
        }
    }
}

impl Settings {
    /// A settings layer with every field unset.
    pub fn empty() -> (r: Settings)
        ensures
            r@.timeout is None,
            r@.setup_timeout is None,
            r@.command is None,
            r@.clear_env is None,
            r@.should_fail is None,
            r@.env == Seq::<(Seq<char>, Seq<char>)>::empty(),
    {
        let r = Settings {
            timeout: None,
            setup_timeout: None,
            command: None,
            clear_env: None,
            should_fail: None,
            env: Vec::new(),
        };
        proof {
            assert(env_view(r.env@) =~= Seq::<(Seq<char>, Seq<char>)>::empty());
        }
        r
    }

    /// A settings layer built from explicit field values.
    pub fn new(
        timeout: Option<u32>,
        setup_timeout: Option<u32>,
        command: Option<String>,
        clear_env: Option<bool>,
        should_fail: Option<bool>,
        env: Vec<(String, String)>,
    ) -> (r: Settings)
        ensures
            r@.timeout == timeout,
            r@.setup_timeout == setup_timeout,
            r@.command == opt_str_view(command),
            r@.clear_env == clear_env,
            r@.should_fail == should_fail,
            r@.env == env_view(env@),
    {
        Settings { timeout, setup_timeout, command, clear_env, should_fail, env }
    }

    /// The timeout for this layer alone: the field if set, else the default.
    pub fn timeout(&self) -> (r: u32)
        ensures
            r == self@.timeout_or_default(),
    {
        if let Some(timeout) = self.timeout {
            return timeout;
        }
        DEFAULT_TIMEOUT_MS
    }

    /// The setup timeout for this layer alone: the field if set, else the default.
    pub fn setup_timeout(&self) -> (r: u32)
        ensures
            r == self@.setup_timeout_or_default(),
    {
        if let Some(timeout) = self.setup_timeout {
            return timeout;
        }
        DEFAULT_SETUP_TIMEOUT_MS
    }

    /// The interpreter invocation for this layer alone: the field if set,
    /// else the default `"sh -c"`.
    pub fn command(&self) -> (r: &str)
        ensures
            r@ == self@.command_or_default(),
    {
        if let Some(ref command) = self.command {
            return command.as_str();
        }
        "sh -c"
    }

    /// Whether the subprocess environment starts empty: the field if set,
    /// else false.
    pub fn clear_env(&self) -> (r: bool)
        ensures
            r == self@.clear_env_or_default(),
    {
        if let Some(clear_env) = self.clear_env {
            return clear_env;
        }
        false
    }

    /// Whether the success test is inverted: the field if set, else false.
    pub fn should_fail(&self) -> (r: bool)
        ensures
            r == self@.should_fail_or_default(),
    {
        if let Some(should_fail) = self.should_fail {
            return should_fail;
        }
        false
    }

    /// The extra environment pairs of this layer, in declaration order.
    pub fn env(&self) -> (r: &Vec<(String, String)>)
        ensures
            env_view(r@) == self@.env,
    {
        &self.env
    }

    /// The timeout field as given, with no default applied.
    pub fn raw_timeout(&self) -> (r: Option<u32>)
        ensures
            r == self@.timeout,
    {
        self.timeout
    }

    /// The setup-timeout field as given, with no default applied.
    pub fn raw_setup_timeout(&self) -> (r: Option<u32>)
        ensures
            r == self@.setup_timeout,
    {
        self.setup_timeout
    }

    /// The command field as given, with no default applied.
    pub fn raw_command(&self) -> (r: Option<String>)
        ensures
            opt_str_view(r) == self@.command,
    {
        clone_opt_string(&self.command)
    }

    /// The clear-env field as given, with no default applied.
    pub fn raw_clear_env(&self) -> (r: Option<bool>)
        ensures
            r == self@.clear_env,
    {
        self.clear_env
    }

    /// The should-fail field as given, with no default applied.
    pub fn raw_should_fail(&self) -> (r: Option<bool>)
        ensures
            r == self@.should_fail,
    {
        self.should_fail
    }

    /// A stack rooted at this layer, with the given override layers
    /// ordered from most-specific to least-specific.
    pub fn stack<'a>(&'a self, other: &'a [&'a Settings]) -> (r: SettingsStack<'a>)
        ensures
            r.root_view() == self@,
            r.layers_view() == other@.map_values(|s: &Settings| s@),
    {
        SettingsStack { root: self, layer: other }
    }
}

/// The value of the first set option at or after index `i`, else `fallback`.
pub open spec fn first_set_from<A>(opts: Seq<Option<A>>, i: int, fallback: A) -> A
    decreases opts.len() - i,
{
    if i < 0 || i >= opts.len() {
        fallback
    } else if opts[i] is Some {
        opts[i]->0
    } else {
        first_set_from(opts, i + 1, fallback)
    }
}

/// Resolution of one scalar over a stack: the first layer (in declared
/// order) that sets the field wins; otherwise the fallback.
pub open spec fn first_set<A>(opts: Seq<Option<A>>, fallback: A) -> A {
    first_set_from(opts, 0, fallback)
}

/// The timeout a stack resolves to.
pub open spec fn stack_timeout(root: SettingsView, layers: Seq<SettingsView>) -> u32 {
    first_set(layers.map_values(|s: SettingsView| s.timeout), root.timeout_or_default())
}

/// The setup timeout a stack resolves to.
pub open spec fn stack_setup_timeout(root: SettingsView, layers: Seq<SettingsView>) -> u32 {
    first_set(layers.map_values(|s: SettingsView| s.setup_timeout), root.setup_timeout_or_default())
}

/// The interpreter invocation a stack resolves to.
pub open spec fn stack_command(root: SettingsView, layers: Seq<SettingsView>) -> Seq<char> {
    first_set(layers.map_values(|s: SettingsView| s.command), root.command_or_default())
}

/// The environment-clearing choice a stack resolves to.
pub open spec fn stack_clear_env(root: SettingsView, layers: Seq<SettingsView>) -> bool {
    first_set(layers.map_values(|s: SettingsView| s.clear_env), root.clear_env_or_default())
}

/// The success-inversion choice a stack resolves to.
pub open spec fn stack_should_fail(root: SettingsView, layers: Seq<SettingsView>) -> bool {
    first_set(layers.map_values(|s: SettingsView| s.should_fail), root.should_fail_or_default())
}

/// The concatenation of the env pairs of the first `i` layers, in layer
/// order.
pub open spec fn env_prefix(layers: Seq<SettingsView>, i: int) -> Seq<(Seq<char>, Seq<char>)>
    decreases i,
{
    if i <= 0 {
        Seq::empty()
    } else {
        env_prefix(layers, i - 1) + layers[i - 1].env
    }
}

/// The environment a stack resolves to: the root's pairs, then every
/// layer's pairs in layer order — a union by concatenation, never an
/// override.
pub open spec fn stack_env(root: SettingsView, layers: Seq<SettingsView>) -> Seq<
    (Seq<char>, Seq<char>),
> {
    root.env + env_prefix(layers, layers.len() as int)
}

/// The settings layer holding every value a stack resolves to.
pub open spec fn resolved_view(root: SettingsView, layers: Seq<SettingsView>) -> SettingsView {
    SettingsView {
        timeout: Some(stack_timeout(root, layers)),
        setup_timeout: Some(stack_setup_timeout(root, layers)),
        command: Some(stack_command(root, layers)),
        clear_env: Some(stack_clear_env(root, layers)),
        should_fail: Some(stack_should_fail(root, layers)),
        env: stack_env(root, layers),
    }
}

/// A non-owning, ordered view of one root `Settings` plus zero or more
/// override layers, ordered from most-specific to least-specific.
/// Resolving is idempotent and side-effect-free: each method returns a
/// pure function of the referenced layers' contents.
pub struct SettingsStack<'a> {
    root: &'a Settings,
    layer: &'a [&'a Settings],
}

impl<'a> SettingsStack<'a> {
    /// The root layer's content.
    pub closed spec fn root_view(self) -> SettingsView {
        self.root@
    }

    /// The override layers' contents, most-specific first.
    pub closed spec fn layers_view(self) -> Seq<SettingsView> {
        self.layer@.map_values(|s: &Settings| s@)
    }

    /// The resolved timeout: the first layer that sets it, else the root's.
    pub fn timeout(&self) -> (r: u32)
        ensures
            r == stack_timeout(self.root_view(), self.layers_view()),
    {
        let ghost opts = self.layers_view().map_values(|s: SettingsView| s.timeout);
        let ghost fallback = self.root_view().timeout_or_default();
        let n = self.layer.len();
        for i in 0..n
            invariant
                n == self.layer@.len(),
                opts == self.layers_view().map_values(|s: SettingsView| s.timeout),
                opts.len() == n,
                first_set(opts, fallback) == first_set_from(opts, i as int, fallback),
                fallback == self.root_view().timeout_or_default(),
        {
            let s: &Settings = self.layer[i];
            if let Some(timeout) = s.timeout {
                return timeout;
            }
        }
        self.root.timeout()
    }

    /// The resolved setup timeout: the first layer that sets it, else the
    /// root's.
    pub fn setup_timeout(&self) -> (r: u32)
        ensures
            r == stack_setup_timeout(self.root_view(), self.layers_view()),
    {
        let ghost opts = self.layers_view().map_values(|s: SettingsView| s.setup_timeout);
        let ghost fallback = self.root_view().setup_timeout_or_default();
        let n = self.layer.len();
        for i in 0..n
            invariant
                n == self.layer@.len(),
                opts == self.layers_view().map_values(|s: SettingsView| s.setup_timeout),
                opts.len() == n,
                first_set(opts, fallback) == first_set_from(opts, i as int, fallback),
                fallback == self.root_view().setup_timeout_or_default(),
        {
            let s: &Settings = self.layer[i];
            if let Some(timeout) = s.setup_timeout {
                return timeout;
            }
        }
        self.root.setup_timeout()
    }

    /// The resolved interpreter invocation: the first layer that sets it,
    /// else the root's.
    pub fn command(&self) -> (r: &str)
        ensures
            r@ == stack_command(self.root_view(), self.layers_view()),
    {
        let ghost opts = self.layers_view().map_values(|s: SettingsView| s.command);
        let ghost fallback = self.root_view().command_or_default();
        let n = self.layer.len();
        for i in 0..n
            invariant
                n == self.layer@.len(),
                opts == self.layers_view().map_values(|s: SettingsView| s.command),
                opts.len() == n,
                first_set(opts, fallback) == first_set_from(opts, i as int, fallback),
                fallback == self.root_view().command_or_default(),
        {
            let s: &Settings = self.layer[i];
            if let Some(ref command) = s.command {
                return command.as_str();
            }
        }
        self.root.command()
    }

    /// The resolved environment-clearing choice: the first layer that sets
    /// it, else the root's.
    pub fn clear_env(&self) -> (r: bool)
        ensures
            r == stack_clear_env(self.root_view(), self.layers_view()),
    {
        let ghost opts = self.layers_view().map_values(|s: SettingsView| s.clear_env);
        let ghost fallback = self.root_view().clear_env_or_default();
        let n = self.layer.len();
        for i in 0..n
            invariant
                n == self.layer@.len(),
                opts == self.layers_view().map_values(|s: SettingsView| s.clear_env),
                opts.len() == n,
                first_set(opts, fallback) == first_set_from(opts, i as int, fallback),
                fallback == self.root_view().clear_env_or_default(),
        {
            let s: &Settings = self.layer[i];
            if let Some(clear_env) = s.clear_env {
                return clear_env;
            }
        }
        self.root.clear_env()
    }

    /// The resolved success-inversion choice: the first layer that sets
    /// it, else the root's.
    pub fn should_fail(&self) -> (r: bool)
        ensures
            r == stack_should_fail(self.root_view(), self.layers_view()),
    {
        let ghost opts = self.layers_view().map_values(|s: SettingsView| s.should_fail);
        let ghost fallback = self.root_view().should_fail_or_default();
        let n = self.layer.len();
        for i in 0..n
            invariant
                n == self.layer@.len(),
                opts == self.layers_view().map_values(|s: SettingsView| s.should_fail),
                opts.len() == n,
                first_set(opts, fallback) == first_set_from(opts, i as int, fallback),
                fallback == self.root_view().should_fail_or_default(),
        {
            let s: &Settings = self.layer[i];
            if let Some(should_fail) = s.should_fail {
                return should_fail;
            }
        }
        self.root.should_fail()
    }

    /// The resolved environment: the root's pairs, then every layer's
    /// pairs, concatenated without shadowing.
    pub fn env(&self) -> (r: Vec<(String, String)>)
        ensures
            env_view(r@) == stack_env(self.root_view(), self.layers_view()),
    {
        let ghost layers = self.layers_view();
        let mut r: Vec<(String, String)> = Vec::new();
        proof {
            assert(env_view(r@) =~= Seq::<(Seq<char>, Seq<char>)>::empty());
        }
        copy_pairs(&mut r, self.root.env());
        let n = self.layer.len();
        for i in 0..n
            invariant
                n == self.layer@.len(),
                layers == self.layers_view(),
                layers.len() == n,
                env_view(r@) == self.root_view().env + env_prefix(layers, i as int),
        {
            let s: &Settings = self.layer[i];
            copy_pairs(&mut r, s.env());
            proof {
                assert(env_view(r@) =~= self.root_view().env + env_prefix(layers, i + 1));
            }
        }
        r
    }

    /// A single settings layer holding every resolved value of this stack.
    pub fn to_settings(&self) -> (r: Settings)
        ensures
            r@ == resolved_view(self.root_view(), self.layers_view()),
    {
        Settings {
            timeout: Some(self.timeout()),
            setup_timeout: Some(self.setup_timeout()),
            command: Some(String::from_str(self.command())),
            clear_env: Some(self.clear_env()),
            should_fail: Some(self.should_fail()),
            env: self.env(),
        }
    }
}

/// Copies an optional string, keeping its characters.
pub(crate) fn clone_opt_string(o: &Option<String>) -> (r: Option<String>)
    ensures
        (r is Some) <==> (o is Some),
        o matches Some(s) ==> r->0@ == s@,
{
    match o {
        Some(s) => Some(s.clone()),
        None => None,
    }
}

impl Clone for Settings {
    /// A copy with the same content.
    fn clone(&self) -> (r: Self)
        ensures
            r@ == self@,
    {
        let mut env: Vec<(String, String)> = Vec::new();
        proof {
            assert(env_view(env@) =~= Seq::<(Seq<char>, Seq<char>)>::empty());
        }
        copy_pairs(&mut env, &self.env);
        let r = Settings {
            timeout: self.timeout,
            setup_timeout: self.setup_timeout,
            command: clone_opt_string(&self.command),
            clear_env: self.clear_env,
            should_fail: self.should_fail,
            env,
        };
        proof {
            assert(env_view(r.env@) =~= env_view(self.env@));
            assert(r@.command == self@.command);
        }
        r
    }
}

impl Clone for GlobalSettings {
    /// A copy with the same content.
    fn clone(&self) -> (r: Self)
        ensures
            r@ == self@,
    {
        GlobalSettings {
            max_test_concurrency: self.max_test_concurrency,
            other_settings: self.other_settings.clone(),
        }
    }
}

/// The env pairs of the example settings that `return_defaults` adds.
pub open spec fn example_env() -> Seq<(Seq<char>, Seq<char>)> {
    seq![("MY_CUSTOM_VAR"@, "my_value"@), ("ANOTHER_CUSTOM_VAR"@, "other_value"@)]
}

/// The settings layer of the example configuration document: every
/// default written out, plus the example environment.
pub open spec fn example_settings_view() -> SettingsView {
    SettingsView {
        timeout: Some(DEFAULT_TIMEOUT_MS),
        setup_timeout: Some(DEFAULT_SETUP_TIMEOUT_MS),
        command: Some("sh -c"@),
        clear_env: Some(false),
        should_fail: Some(false),
        env: example_env(),
    }
}

impl Settings {
    /// A copy of this layer with every optional scalar made explicit
    /// (field value if set, else the default) and an example environment,
    /// as used by the example configuration document.
    pub fn return_defaults(&self) -> (r: Settings)
        ensures
            r@.timeout == Some(self@.timeout_or_default()),
            r@.setup_timeout == Some(self@.setup_timeout_or_default()),
            r@.command == Some(self@.command_or_default()),
            r@.clear_env == Some(self@.clear_env_or_default()),
            r@.should_fail == Some(self@.should_fail_or_default()),
            r@.env == example_env(),
    {
        let mut env: Vec<(String, String)> = Vec::new();
        env.push((String::from_str("MY_CUSTOM_VAR"), String::from_str("my_value")));
        env.push((String::from_str("ANOTHER_CUSTOM_VAR"), String::from_str("other_value")));
        proof {
            assert(env_view(env@) =~= example_env());
        }
        Settings {
            timeout: Some(self.timeout()),
            setup_timeout: Some(self.setup_timeout()),
            command: Some(String::from_str(self.command())),
            clear_env: Some(self.clear_env()),
            should_fail: Some(self.should_fail()),
            env,
        }
    }
}

impl Default for Settings {
    /// The empty layer: every field unset.
    fn default() -> (r: Settings)
        ensures
            r@.timeout is None,
            r@.setup_timeout is None,
            r@.command is None,
            r@.clear_env is None,
            r@.should_fail is None,
            r@.env == Seq::<(Seq<char>, Seq<char>)>::empty(),
    {
        Settings::empty()
    }
}

/// The mathematical content of a `GlobalSettings` value.
pub struct GlobalSettingsView {
    pub max_test_concurrency: Option<usize>,
    pub other_settings: SettingsView,
}

/// The settings value at the root of every stack, plus the scheduler's
/// concurrency ceiling.
pub struct GlobalSettings {
    max_test_concurrency: Option<usize>,
    other_settings: Settings,
}

impl View for GlobalSettings {
    type V = GlobalSettingsView;

    closed spec fn view(&self) -> GlobalSettingsView {
        GlobalSettingsView {
            max_test_concurrency: self.max_test_concurrency,
            other_settings: self.other_settings@,
        }
    }
}

impl GlobalSettingsView {
    /// The concurrency ceiling this value yields: the field if set, else
    /// the default.
    pub open spec fn max_test_concurrency_or_default(self) -> usize {
        match self.max_test_concurrency {
            Some(m) => m,
            None => DEFAULT_MAX_TEST_CONCURRENCY,
        }
    }
}

impl GlobalSettings {
    /// A global settings value built from explicit parts.
    pub fn new(max_test_concurrency: Option<usize>, other_settings: Settings) -> (r:
        GlobalSettings)
        ensures
            r@.max_test_concurrency == max_test_concurrency,
            r@.other_settings == other_settings@,
    {
        GlobalSettings { max_test_concurrency, other_settings }
    }

    /// The settings layer inside this value, the root of every stack.
    pub fn settings(&self) -> (r: &Settings)
        ensures
            r@ == self@.other_settings,
    {
        &self.other_settings
    }

    /// A stack rooted at these global settings.
    pub fn stack<'a>(&'a self, other: &'a [&'a Settings]) -> (r: SettingsStack<'a>)
        ensures
            r.root_view() == self@.other_settings,
            r.layers_view() == other@.map_values(|s: &Settings| s@),
    {
        self.other_settings.stack(other)
    }

    /// The number of tests that may run at the same time: the field if
    /// set, else the default.
    pub fn max_test_concurrency(&self) -> (r: usize)
        ensures
            r == self@.max_test_concurrency_or_default(),
    {
        if let Some(max_test_concurrency) = self.max_test_concurrency {
            return max_test_concurrency;
        }
        DEFAULT_MAX_TEST_CONCURRENCY
    }

    /// The concurrency field as given, with no default applied.
    pub fn raw_max_test_concurrency(&self) -> (r: Option<usize>)
        ensures
            r == self@.max_test_concurrency,
    {
        self.max_test_concurrency
    }

    /// A copy with every optional value made explicit, as used by the
    /// example configuration document.
    pub fn return_defaults(&self) -> (r: GlobalSettings)
        ensures
            r@.max_test_concurrency == Some(self@.max_test_concurrency_or_default()),
            r@.other_settings.timeout == Some(self@.other_settings.timeout_or_default()),
            r@.other_settings.setup_timeout == Some(
                self@.other_settings.setup_timeout_or_default(),
            ),
            r@.other_settings.command == Some(self@.other_settings.command_or_default()),
            r@.other_settings.clear_env == Some(self@.other_settings.clear_env_or_default()),
            r@.other_settings.should_fail == Some(self@.other_settings.should_fail_or_default()),
            r@.other_settings.env == example_env(),
    {
        GlobalSettings {
            max_test_concurrency: Some(self.max_test_concurrency()),
            other_settings: self.other_settings.return_defaults(),
        }
    }
}

impl Default for GlobalSettings {
    /// Every field unset: all lookups fall back to the defaults.
    fn default() -> (r: GlobalSettings)
        ensures
            r@.max_test_concurrency is None,
            r@.other_settings.timeout is None,
            r@.other_settings.setup_timeout is None,
            r@.other_settings.command is None,
            r@.other_settings.clear_env is None,
            r@.other_settings.should_fail is None,
            r@.other_settings.env == Seq::<(Seq<char>, Seq<char>)>::empty(),
    {
        GlobalSettings { max_test_concurrency: None, other_settings: Settings::empty() }
    }
}

/// Walking `first_set_from` over a prefix of unset options does not
/// change the result.
proof fn lemma_first_set_unset_prefix<A>(opts: Seq<Option<A>>, i: int, fallback: A)
    requires
        0 <= i <= opts.len(),
        forall|j: int| 0 <= j < i ==> opts[j] is None,
    ensures
        first_set(opts, fallback) == first_set_from(opts, i, fallback),
    decreases i,
{
    if i > 0 {
        lemma_first_set_unset_prefix(opts, i - 1, fallback);
    }
}

/// Resolution returns the value of the first layer (in declared order)
/// that sets the field; if no layer sets it, the fallback derived from
/// the root.  The result is a pure function of the option sequence and
/// the fallback, so repeated resolution of an unchanged stack always
/// returns the same value.
pub proof fn lemma_first_layer_wins<A>(opts: Seq<Option<A>>, fallback: A)
    ensures
        (forall|j: int| 0 <= j < opts.len() ==> opts[j] is None) ==> first_set(opts, fallback)
            == fallback,
        forall|i: int|
            0 <= i < opts.len() && opts[i] is Some && (forall|j: int| 0 <= j < i ==> opts[j] is None)
                ==> first_set(opts, fallback) == opts[i]->0,
{
    if forall|j: int| 0 <= j < opts.len() ==> opts[j] is None {
        lemma_first_set_unset_prefix(opts, opts.len() as int, fallback);
    }
    assert forall|i: int|
        0 <= i < opts.len() && opts[i] is Some && (forall|j: int|
            0 <= j < i ==> opts[j] is None) implies first_set(opts, fallback) == opts[i]->0 by {
        lemma_first_set_unset_prefix(opts, i, fallback);
    }
}

/// First-layer-wins for the timeout: for every stack, the resolved
/// timeout is the value of the first layer (in declared order) that
/// sets the field, and the root's value-or-default when no layer does.
pub proof fn lemma_stack_timeout_first_layer_wins(root: SettingsView, layers: Seq<SettingsView>)
    ensures
        (forall|j: int| 0 <= j < layers.len() ==> layers[j].timeout is None) ==> stack_timeout(
            root,
            layers,
        ) == root.timeout_or_default(),
        forall|i: int|
            0 <= i < layers.len() && layers[i].timeout is Some && (forall|j: int|
                0 <= j < i ==> layers[j].timeout is None) ==> stack_timeout(root, layers)
                == layers[i].timeout->0,
{
    let opts = layers.map_values(|s: SettingsView| s.timeout);
    let fallback = root.timeout_or_default();
    lemma_first_layer_wins(opts, fallback);
    assert(forall|j: int| 0 <= j < layers.len() ==> opts[j] == #[trigger] layers[j].timeout);
    if forall|j: int| 0 <= j < layers.len() ==> layers[j].timeout is None {
        assert(forall|j: int| 0 <= j < opts.len() ==> opts[j] is None);
    }
    assert forall|i: int|
        0 <= i < layers.len() && layers[i].timeout is Some && (forall|j: int|
            0 <= j < i ==> layers[j].timeout is None) implies stack_timeout(root, layers)
        == layers[i].timeout->0 by {
        assert(forall|j: int| 0 <= j < i ==> opts[j] is None);
    }
}

/// First-layer-wins for the setup timeout.
pub proof fn lemma_stack_setup_timeout_first_layer_wins(
    root: SettingsView,
    layers: Seq<SettingsView>,
)
    ensures
        (forall|j: int| 0 <= j < layers.len() ==> layers[j].setup_timeout is None)
            ==> stack_setup_timeout(root, layers) == root.setup_timeout_or_default(),
        forall|i: int|
            0 <= i < layers.len() && layers[i].setup_timeout is Some && (forall|j: int|
                0 <= j < i ==> layers[j].setup_timeout is None) ==> stack_setup_timeout(
                root,
                layers,
            ) == layers[i].setup_timeout->0,
{
    let opts = layers.map_values(|s: SettingsView| s.setup_timeout);
    let fallback = root.setup_timeout_or_default();
    lemma_first_layer_wins(opts, fallback);
    assert(forall|j: int|
        0 <= j < layers.len() ==> opts[j] == #[trigger] layers[j].setup_timeout);
    if forall|j: int| 0 <= j < layers.len() ==> layers[j].setup_timeout is None {
        assert(forall|j: int| 0 <= j < opts.len() ==> opts[j] is None);
    }
    assert forall|i: int|
        0 <= i < layers.len() && layers[i].setup_timeout is Some && (forall|j: int|
            0 <= j < i ==> layers[j].setup_timeout is None) implies stack_setup_timeout(
        root,
        layers,
    ) == layers[i].setup_timeout->0 by {
        assert(forall|j: int| 0 <= j < i ==> opts[j] is None);
    }
}

/// First-layer-wins for the interpreter invocation.
pub proof fn lemma_stack_command_first_layer_wins(root: SettingsView, layers: Seq<SettingsView>)
    ensures
        (forall|j: int| 0 <= j < layers.len() ==> layers[j].command is None) ==> stack_command(
            root,
            layers,
        ) == root.command_or_default(),
        forall|i: int|
            0 <= i < layers.len() && layers[i].command is Some && (forall|j: int|
                0 <= j < i ==> layers[j].command is None) ==> stack_command(root, layers)
                == layers[i].command->0,
{
    let opts = layers.map_values(|s: SettingsView| s.command);
    let fallback = root.command_or_default();
    lemma_first_layer_wins(opts, fallback);
    assert(forall|j: int| 0 <= j < layers.len() ==> opts[j] == #[trigger] layers[j].command);
    if forall|j: int| 0 <= j < layers.len() ==> layers[j].command is None {
        assert(forall|j: int| 0 <= j < opts.len() ==> opts[j] is None);
    }
    assert forall|i: int|
        0 <= i < layers.len() && layers[i].command is Some && (forall|j: int|
            0 <= j < i ==> layers[j].command is None) implies stack_command(root, layers)
        == layers[i].command->0 by {
        assert(forall|j: int| 0 <= j < i ==> opts[j] is None);
    }
}

/// First-layer-wins for the environment-clearing choice.
pub proof fn lemma_stack_clear_env_first_layer_wins(root: SettingsView, layers: Seq<SettingsView>)
    ensures
        (forall|j: int| 0 <= j < layers.len() ==> layers[j].clear_env is None) ==> stack_clear_env(
            root,
            layers,
        ) == root.clear_env_or_default(),
        forall|i: int|
            0 <= i < layers.len() && layers[i].clear_env is Some && (forall|j: int|
                0 <= j < i ==> layers[j].clear_env is None) ==> stack_clear_env(root, layers)
                == layers[i].clear_env->0,
{
    let opts = layers.map_values(|s: SettingsView| s.clear_env);
    let fallback = root.clear_env_or_default();
    lemma_first_layer_wins(opts, fallback);
    assert(forall|j: int| 0 <= j < layers.len() ==> opts[j] == #[trigger] layers[j].clear_env);
    if forall|j: int| 0 <= j < layers.len() ==> layers[j].clear_env is None {
        assert(forall|j: int| 0 <= j < opts.len() ==> opts[j] is None);
    }
    assert forall|i: int|
        0 <= i < layers.len() && layers[i].clear_env is Some && (forall|j: int|
            0 <= j < i ==> layers[j].clear_env is None) implies stack_clear_env(root, layers)
        == layers[i].clear_env->0 by {
        assert(forall|j: int| 0 <= j < i ==> opts[j] is None);
    }
}

/// First-layer-wins for the success-inversion choice.
pub proof fn lemma_stack_should_fail_first_layer_wins(
    root: SettingsView,
    layers: Seq<SettingsView>,
)
    ensures
        (forall|j: int| 0 <= j < layers.len() ==> layers[j].should_fail is None)
            ==> stack_should_fail(root, layers) == root.should_fail_or_default(),
        forall|i: int|
            0 <= i < layers.len() && layers[i].should_fail is Some && (forall|j: int|
                0 <= j < i ==> layers[j].should_fail is None) ==> stack_should_fail(root, layers)
                == layers[i].should_fail->0,
{
    let opts = layers.map_values(|s: SettingsView| s.should_fail);
    let fallback = root.should_fail_or_default();
    lemma_first_layer_wins(opts, fallback);
    assert(forall|j: int| 0 <= j < layers.len() ==> opts[j] == #[trigger] layers[j].should_fail);
    if forall|j: int| 0 <= j < layers.len() ==> layers[j].should_fail is None {
        assert(forall|j: int| 0 <= j < opts.len() ==> opts[j] is None);
    }
    assert forall|i: int|
        0 <= i < layers.len() && layers[i].should_fail is Some && (forall|j: int|
            0 <= j < i ==> layers[j].should_fail is None) implies stack_should_fail(root, layers)
        == layers[i].should_fail->0 by {
        assert(forall|j: int| 0 <= j < i ==> opts[j] is None);
    }
}

/// Resolution is idempotent: the snapshot of a stack's resolved values,
/// used as a root with no override layers, resolves to the very same
/// values.
pub proof fn lemma_resolution_idempotent(root: SettingsView, layers: Seq<SettingsView>)
    ensures
        resolved_view(resolved_view(root, layers), Seq::<SettingsView>::empty())
            == resolved_view(root, layers),
{
    let snapshot = resolved_view(root, layers);
    let none: Seq<SettingsView> = Seq::empty();
    assert(none.map_values(|s: SettingsView| s.timeout).len() == 0);
    assert(none.map_values(|s: SettingsView| s.setup_timeout).len() == 0);
    assert(none.map_values(|s: SettingsView| s.command).len() == 0);
    assert(none.map_values(|s: SettingsView| s.clear_env).len() == 0);
    assert(none.map_values(|s: SettingsView| s.should_fail).len() == 0);
    assert(stack_env(snapshot, none) =~= snapshot.env);
    assert(resolved_view(snapshot, none) =~= snapshot);
}

/// Every pair of some layer's env appears in the concatenation of the
/// first `n` layers' envs, provided that layer is among them.
proof fn lemma_env_prefix_contains(layers: Seq<SettingsView>, n: int, i: int, k: int)
    requires
        0 <= i < n <= layers.len(),
        0 <= k < layers[i].env.len(),
    ensures
        env_prefix(layers, n).contains(layers[i].env[k]),
    decreases n,
{
    if i == n - 1 {
        let left = env_prefix(layers, n - 1);
        assert(env_prefix(layers, n)[left.len() + k] == layers[i].env[k]);
    } else {
        lemma_env_prefix_contains(layers, n - 1, i, k);
        let left = env_prefix(layers, n - 1);
        let t = choose|t: int| 0 <= t < left.len() && left[t] == layers[i].env[k];
        assert(env_prefix(layers, n)[t] == layers[i].env[k]);
    }
}

/// The resolved environment is a union, not an override: every pair of
/// the root's env and every pair of every layer's env appears in the
/// result, so a key set at several levels appears once for each level.
pub proof fn lemma_env_union(root: SettingsView, layers: Seq<SettingsView>, i: int, k: int)
    requires
        0 <= i < layers.len(),
        0 <= k < layers[i].env.len(),
    ensures
        stack_env(root, layers).contains(layers[i].env[k]),
        forall|j: int| 0 <= j < root.env.len() ==> stack_env(root, layers).contains(#[trigger] root.env[j]),
{
    lemma_env_prefix_contains(layers, layers.len() as int, i, k);
    let prefix = env_prefix(layers, layers.len() as int);
    let t = choose|t: int| 0 <= t < prefix.len() && prefix[t] == layers[i].env[k];
    assert(stack_env(root, layers)[root.env.len() + t] == layers[i].env[k]);
    assert forall|j: int| 0 <= j < root.env.len() implies stack_env(root, layers).contains(
        #[trigger] root.env[j],
    ) by {
        assert(stack_env(root, layers)[j] == root.env[j]);
    }
}

/// Whether two optional scalars hold the same value.
fn opt_u32_eq(a: &Option<u32>, b: &Option<u32>) -> (r: bool)
    ensures
        r == (a == b),
{
    match (a, b) {
        (None, None) => true,
        (Some(x), Some(y)) => x == y,
        _ => false,
    }
}

/// Whether two optional flags hold the same value.
fn opt_bool_eq(a: &Option<bool>, b: &Option<bool>) -> (r: bool)
    ensures
        r == (a == b),
{
    match (a, b) {
        (None, None) => true,
        (Some(x), Some(y)) => x == y,
        _ => false,
    }
}

/// Whether two optional strings hold the same characters.
pub(crate) fn opt_string_eq(a: &Option<String>, b: &Option<String>) -> (r: bool)
    ensures
        r == (opt_str_view(*a) == opt_str_view(*b)),
{
    match (a, b) {
        (None, None) => true,
        (Some(x), Some(y)) => x.eq(y),
        _ => false,
    }
}

/// Whether two environment lists hold the same pairs in the same order.
fn env_eq(a: &Vec<(String, String)>, b: &Vec<(String, String)>) -> (r: bool)
    ensures
        r == (env_view(a@) == env_view(b@)),
{
    if a.len() != b.len() {
        proof {
            assert(env_view(a@).len() != env_view(b@).len());
        }
        return false;
    }
    let n = a.len();
    for i in 0..n
        invariant
            n == a@.len(),
            a@.len() == b@.len(),
            forall|j: int| 0 <= j < i ==> env_view(a@)[j] == env_view(b@)[j],
    {
        proof {
            assert(env_view(a@)[i as int] == (a@[i as int].0@, a@[i as int].1@));
            assert(env_view(b@)[i as int] == (b@[i as int].0@, b@[i as int].1@));
        }
        if !(a[i].0.eq(&b[i].0)) {
            proof {
                assert(env_view(a@)[i as int] != env_view(b@)[i as int]);
            }
            return false;
        }
        if !(a[i].1.eq(&b[i].1)) {
            proof {
                assert(env_view(a@)[i as int] != env_view(b@)[i as int]);
            }
            return false;
        }
    }
    proof {
        assert(env_view(a@) =~= env_view(b@));
    }
    true
}

impl PartialEq for Settings {
    /// Layers are equal when every field holds the same content.
    fn eq(&self, other: &Self) -> (r: bool) {
        let t = opt_u32_eq(&self.timeout, &other.timeout);
        let st = opt_u32_eq(&self.setup_timeout, &other.setup_timeout);
        let c = opt_string_eq(&self.command, &other.command);
        let ce = opt_bool_eq(&self.clear_env, &other.clear_env);
        let sf = opt_bool_eq(&self.should_fail, &other.should_fail);
        let e = env_eq(&self.env, &other.env);
        let r = t && st && c && ce && sf && e;
        proof {
            if r {
                assert(self@ =~= other@);
            }
        }
        r
    }
}

impl vstd::std_specs::cmp::PartialEqSpecImpl for Settings {
    open spec fn obeys_eq_spec() -> bool {
        true
    }

    open spec fn eq_spec(&self, other: &Settings) -> bool {
        self@ == other@
    }
}

/// Mapping the pair view over a pushed sequence appends the pushed
/// pair's view.
proof fn lemma_env_view_push(s: Seq<(String, String)>, p: (String, String))
    ensures
        env_view(s.push(p)) =~= env_view(s).push((p.0@, p.1@)),
{
    assert forall|i: int| 0 <= i < s.push(p).len() implies env_view(s.push(p))[i] == env_view(
        s,
    ).push((p.0@, p.1@))[i] by {
        if i < s.len() {
            assert(s.push(p)[i] == s[i]);
        } else {
            assert(s.push(p)[i] == p);
        }
    }
}

/// Appends a copy of every pair of `src` to `dst`, keeping order.
fn copy_pairs(dst: &mut Vec<(String, String)>, src: &Vec<(String, String)>)
    ensures
        env_view(final(dst)@) == env_view(old(dst)@) + env_view(src@),
{
    let n = src.len();
    for j in 0..n
        invariant
            n == src@.len(),
            env_view(dst@) == env_view(old(dst)@) + env_view(src@.take(j as int)),
    {
        let k = src[j].0.clone();
        let v = src[j].1.clone();
        let ghost pre = dst@;
        dst.push((k, v));
        proof {
            lemma_env_view_push(pre, (k, v));
            lemma_env_view_push(src@.take(j as int), src@[j as int]);
            assert(src@.take(j + 1) =~= src@.take(j as int).push(src@[j as int]));
            assert(env_view(dst@) =~= env_view(old(dst)@) + env_view(src@.take(j + 1)));
        }
    }
    proof {
        assert(src@.take(n as int) =~= src@);
    }
}

} // verus!
