//! A declarative end-to-end test runner library.
//!
//! A configuration document enumerates named test cases, each a shell
//! command with optional per-test setup and teardown commands.  This
//! crate holds the execution engine: the layered settings-resolution
//! model, command construction and exit-status interpretation, the
//! per-test lifecycle, glob-based group expansion into individual test
//! cases, and the concurrency-bounded scheduler bookkeeping.  Process
//! spawning, argument parsing and configuration loading live with the
//! surrounding binary, which drives the state machines defined here.

use vstd::prelude::*;
use vstd::string::StringExecFns;

pub mod command;
pub mod decimal;
pub mod error;
pub mod expression;
pub mod scheduler;
pub mod settings;
pub mod tests;

pub use error::Error;
pub use settings::Settings;
pub use settings::SettingsStack;
pub use settings::GlobalSettings;
pub use tests::Group;
pub use tests::Test;
pub use tests::Tests;

use crate::settings::opt_str_view;
use crate::tests::example_test_view;
use crate::tests::TestView;
use crate::settings::example_settings_view;

verus! {

/// The whole parsed configuration document: the batch-level setup
/// hooks, the named tests (or the group that generates them), and the
/// global settings at the root of every resolution stack.
pub struct Data {
    /// The batch-level setup hooks.
    pub setup: Setup,
    /// The named tests, or the group that generates them.
    pub test: TestsOrGroup,
    /// The global settings.
    pub global: GlobalSettings,
}

impl Data {
    /// The example configuration document: one echoing test, the setup
    /// hooks present but empty, and every global default written out.
    pub fn dump_example() -> (r: Data)
        ensures
            opt_str_view(r.setup.before_all) == Some(Seq::<char>::empty()),
            opt_str_view(r.setup.after_all) == Some(Seq::<char>::empty()),
            r.setup.setups@.len() == 0,
            r.test matches TestsOrGroup::Tests(t) && t@ == seq![("just echo"@, example_test_view())],
            r.global@.max_test_concurrency == Some(settings::DEFAULT_MAX_TEST_CONCURRENCY),
            r.global@.other_settings == example_settings_view(),
    {
        let mut example_tests = Tests::new();
        let ghost empty_entries = example_tests@;
        example_tests.insert(String::from_str("just echo"), Test::dump_example());
        proof {
            assert(!(exists|i: int|
                0 <= i < empty_entries.len() && empty_entries[i].0 == "just echo"@));
            assert(example_tests@ =~= seq![("just echo"@, example_test_view())]);
        }
        let global: GlobalSettings = Default::default();
        Data {
            setup: Setup::dump_example(),
            test: TestsOrGroup::Tests(example_tests),
            global: global.return_defaults(),
        }
    }
}

/// The top-level test value of a configuration document: either a
/// mapping of named tests, or a single group descriptor that generates
/// named tests from matching files.
pub enum TestsOrGroup {
    /// Named tests, given directly.
    Tests(Tests),
    /// A group to be expanded into named tests.
    Group(Group),
}

impl TestsOrGroup {
    /// How many tests stand ready to run: the mapping's size for named
    /// tests; nothing for a group, whose size is known only once its
    /// patterns have been walked over the filesystem.
    pub fn len(&self) -> (r: Option<usize>)
        ensures
            self matches TestsOrGroup::Tests(t) ==> r matches Some(n) && n == t@.len(),
            self matches TestsOrGroup::Group(_) ==> r is None,
    {
        match self {
            TestsOrGroup::Tests(t) => Some(t.len()),
            TestsOrGroup::Group(_) => None,
        }
    }
}

impl Default for TestsOrGroup {
    /// An empty mapping of named tests.
    fn default() -> (r: TestsOrGroup)
        ensures
            r matches TestsOrGroup::Tests(t) && t@ == Seq::<(Seq<char>, TestView)>::empty()
                && t.wf(),
    {
        TestsOrGroup::Tests(Tests::new())
    }
}

/// The batch-level hooks: scripts run exactly once around the whole
/// run, under the global settings alone.
pub struct Setup {
    /// Script run once before any test is scheduled.
    pub before_all: Option<String>,
    /// Script run once after every scheduled test has completed.
    pub after_all: Option<String>,
    /// Further named setup entries of the document, kept as given.
    pub setups: Vec<(String, String)>,
}

impl Setup {
    /// The example setup of the example configuration document: both
    /// hooks present but empty.
    pub fn dump_example() -> (r: Setup)
        ensures
            opt_str_view(r.before_all) == Some(Seq::<char>::empty()),
            opt_str_view(r.after_all) == Some(Seq::<char>::empty()),
            r.setups@.len() == 0,
    {
        Setup { before_all: Some(String::new()), after_all: Some(String::new()), setups: Vec::new() }
    }
}

impl Default for Setup {
    /// No hooks and no named entries.
    fn default() -> (r: Setup)
        ensures
            r.before_all is None,
            r.after_all is None,
            r.setups@.len() == 0,
    {
        Setup { before_all: None, after_all: None, setups: Vec::new() }
    }
}

} // verus!
