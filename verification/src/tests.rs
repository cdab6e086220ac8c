//! Test cases: the single named test with its before/test/after scripts,
//! the named collection of tests, the file-glob group that expands into
//! tests, and the state machine that drives one test's lifecycle.

use vstd::prelude::*;
use vstd::pervasive::unreached;

use crate::command::CommandBuilder;
use crate::command::Invocation;
use crate::command::invocation_view;
use crate::error::Error;
use crate::settings::GlobalSettings;
use crate::settings::Settings;
use crate::settings::SettingsView;
use crate::settings::clone_opt_string;
use crate::settings::opt_str_view;
use crate::settings::opt_string_eq;
use crate::settings::env_view;
use crate::settings::resolved_view;
use vstd::string::StringExecFns;

verus! {

/// One named test case: an optional before-script, the mandatory test
/// script, an optional after-script, and a test-level settings layer.
pub struct Test {
    /// Script to run before the test.
    pub before: Option<String>,
    /// Script to run after the test.
    pub after: Option<String>,
    /// The actual test script.
    pub test: String,
    /// The test-level settings override layer.
    pub settings: Settings,
}

/// The mathematical content of a `Test`.
pub struct TestView {
    pub before: Option<Seq<char>>,
    pub after: Option<Seq<char>>,
    pub test: Seq<char>,
    pub settings: SettingsView,
}

impl View for Test {
    type V = TestView;

    open spec fn view(&self) -> TestView {
        TestView {
            before: opt_str_view(self.before),
            after: opt_str_view(self.after),
            test: self.test@,
            settings: self.settings@,
        }
    }
}

impl Clone for Test {
    /// A copy with the same content.
    fn clone(&self) -> (r: Self)
        ensures
            r@ == self@,
    {
        let r = Test {
            before: clone_opt_string(&self.before),
            after: clone_opt_string(&self.after),
            test: self.test.clone(),
            settings: self.settings.clone(),
        };
        proof {
            assert(r@.before == self@.before);
            assert(r@.after == self@.after);
        }
        r
    }
}

/// An ordered collection of named tests whose names are unique, as the
/// names in a configuration mapping are.
pub struct Tests {
    entries: Vec<(String, Test)>,
}

/// The sequence of name/test pairs held by an entry list.
pub open spec fn entries_view(s: Seq<(String, Test)>) -> Seq<(Seq<char>, TestView)> {
    s.map_values(|p: (String, Test)| (p.0@, p.1@))
}

/// Whether every name appears at most once.
pub open spec fn unique_names(s: Seq<(Seq<char>, TestView)>) -> bool {
    forall|i: int, j: int| 0 <= i < j < s.len() ==> s[i].0 != s[j].0
}

/// Map-like insertion: replaces the test under an already-present name,
/// else appends a new entry.
pub open spec fn insert_entry(
    s: Seq<(Seq<char>, TestView)>,
    name: Seq<char>,
    t: TestView,
) -> Seq<(Seq<char>, TestView)> {
    if exists|i: int| 0 <= i < s.len() && s[i].0 == name {
        let i = choose|i: int| 0 <= i < s.len() && s[i].0 == name;
        s.update(i, (name, t))
    } else {
        s.push((name, t))
    }
}

impl View for Tests {
    type V = Seq<(Seq<char>, TestView)>;

    closed spec fn view(&self) -> Seq<(Seq<char>, TestView)> {
        entries_view(self.entries@)
    }
}

impl Tests {
    /// The collection's names are unique.
    pub open spec fn wf(self) -> bool {
        unique_names(self@)
    }

    /// An empty collection.
    pub fn new() -> (r: Tests)
        ensures
            r@ == Seq::<(Seq<char>, TestView)>::empty(),
            r.wf(),
    {
        let r = Tests { entries: Vec::new() };
        proof {
            assert(r@ =~= Seq::<(Seq<char>, TestView)>::empty());
        }
        r
    }

    /// How many tests the collection holds.
    pub fn len(&self) -> (r: usize)
        ensures
            r == self@.len(),
    {
        self.entries.len()
    }

    /// The entry at one position.
    pub fn entry_at(&self, i: usize) -> (r: &(String, Test))
        requires
            i < self@.len(),
        ensures
            r.0@ == self@[i as int].0,
            r.1@ == self@[i as int].1,
    {
        &self.entries[i]
    }

    /// Inserts a test under a name with mapping semantics: an entry with
    /// the same name is replaced in place, otherwise the new entry is
    /// appended.  Name uniqueness is preserved.
    pub fn insert(&mut self, name: String, test: Test)
        requires
            old(self).wf(),
        ensures
            final(self)@ == insert_entry(old(self)@, name@, test@),
            final(self).wf(),
    {
        let ghost pre_entries = self.entries@;
        let ghost pre = self@;
        let n = self.entries.len();
        for i in 0..n
            invariant
                n == self.entries@.len(),
                self.entries@ == pre_entries,
                pre == entries_view(pre_entries),
                unique_names(pre),
                pre.len() == pre_entries.len(),
                pre == old(self)@,
                forall|j: int| 0 <= j < i ==> pre[j].0 != name@,
        {
            proof {
                assert(pre[i as int] == (pre_entries[i as int].0@, pre_entries[i as int].1@));
            }
            if string_eq(&self.entries[i].0, &name) {
                let ghost k = i as int;
                self.entries.set(i, (name, test));
                proof {
                    assert(pre[k].0 == name@);
                    assert(forall|j: int| 0 <= j < pre.len() && pre[j].0 == name@ ==> j == k);
                    let c = choose|t: int| 0 <= t < pre.len() && pre[t].0 == name@;
                    assert(c == k);
                    assert(self.entries@ == pre_entries.update(k, (name, test)));
                    assert forall|t: int| 0 <= t < self@.len() implies self@[t] == pre.update(
                        k,
                        (name@, test@),
                    )[t] by {
                        assert(self@[t] == (self.entries@[t].0@, self.entries@[t].1@));
                        if t != k {
                            assert(self.entries@[t] == pre_entries[t]);
                            assert(pre[t] == (pre_entries[t].0@, pre_entries[t].1@));
                        } else {
                            assert(self.entries@[t] == (name, test));
                        }
                    }
                    assert(self@ =~= pre.update(k, (name@, test@)));
                    assert(exists|t: int| 0 <= t < pre.len() && pre[t].0 == name@);
                    assert(insert_entry(pre, name@, test@) == pre.update(c, (name@, test@)));
                    assert(unique_names(self@));
                }
                return ;
            }
        }
        self.entries.push((name, test));
        proof {
            assert(forall|j: int| 0 <= j < pre.len() ==> pre[j].0 != name@);
            assert(!(exists|i: int| 0 <= i < pre.len() && pre[i].0 == name@));
            assert(self.entries@ == pre_entries.push((name, test)));
            assert forall|t: int| 0 <= t < self@.len() implies self@[t] == pre.push(
                (name@, test@),
            )[t] by {
                assert(self@[t] == (self.entries@[t].0@, self.entries@[t].1@));
                if t < pre.len() {
                    assert(self.entries@[t] == pre_entries[t]);
                    assert(pre[t] == (pre_entries[t].0@, pre_entries[t].1@));
                } else {
                    assert(self.entries@[t] == (name, test));
                }
            }
            assert(self@ =~= pre.push((name@, test@)));
            assert(unique_names(self@));
        }
    }
}

/// Whether two strings hold the same characters.
fn string_eq(a: &String, b: &String) -> (r: bool)
    ensures
        r == (a@ == b@),
{
    a.eq(b)
}

/// The test of the example configuration document.
pub open spec fn example_test_view() -> TestView {
    TestView {
        before: Some(Seq::<char>::empty()),
        after: Some(Seq::<char>::empty()),
        test: "echo 'test'"@,
        settings: crate::settings::example_settings_view(),
    }
}

impl Test {
    /// The example test of the example configuration document.
    pub fn dump_example() -> (r: Test)
        ensures
            r@ == example_test_view(),
    {
        let r = Test {
            before: Some(String::new()),
            after: Some(String::new()),
            test: String::from_str("echo 'test'"),
            settings: Settings::empty().return_defaults(),
        };
        proof {
            assert(r@.before == example_test_view().before);
            assert(r@.after == example_test_view().after);
            assert(r@.settings == example_test_view().settings);
        }
        r
    }
}

/// A declarative set of file-glob patterns plus shared scripts and
/// settings, expanded at load time into one test per matched file.
pub struct Group {
    /// Script to run before each generated test.
    pub before: Option<String>,
    /// Script to run after each generated test.
    pub after: Option<String>,
    /// The glob patterns, in declared order.
    pub files: Vec<String>,
    /// The settings layer every generated test carries.
    pub settings: Settings,
}

/// The mathematical content of a `Group`.
#[verifier::ext_equal]
pub struct GroupView {
    pub before: Option<Seq<char>>,
    pub after: Option<Seq<char>>,
    pub files: Seq<Seq<char>>,
    pub settings: SettingsView,
}

impl View for Group {
    type V = GroupView;

    open spec fn view(&self) -> GroupView {
        GroupView {
            before: opt_str_view(self.before),
            after: opt_str_view(self.after),
            files: crate::command::words_view(self.files@),
            settings: self.settings@,
        }
    }
}

/// Whether two pattern lists hold the same patterns in the same order.
fn files_eq(a: &Vec<String>, b: &Vec<String>) -> (r: bool)
    ensures
        r == (crate::command::words_view(a@) == crate::command::words_view(b@)),
{
    let ghost va = crate::command::words_view(a@);
    let ghost vb = crate::command::words_view(b@);
    if a.len() != b.len() {
        proof {
            assert(va.len() != vb.len());
        }
        return false;
    }
    let n = a.len();
    for i in 0..n
        invariant
            n == a@.len(),
            a@.len() == b@.len(),
            va == crate::command::words_view(a@),
            vb == crate::command::words_view(b@),
            forall|j: int| 0 <= j < i ==> va[j] == vb[j],
    {
        proof {
            assert(va[i as int] == a@[i as int]@);
            assert(vb[i as int] == b@[i as int]@);
        }
        if !(a[i].eq(&b[i])) {
            proof {
                assert(va[i as int] != vb[i as int]);
            }
            return false;
        }
    }
    proof {
        assert(va =~= vb);
    }
    true
}

impl PartialEq for Group {
    /// Groups are equal when their scripts, their settings and their
    /// pattern lists hold the same content in the same order.
    fn eq(&self, other: &Self) -> (r: bool) {
        let b = opt_string_eq(&self.before, &other.before);
        let a = opt_string_eq(&self.after, &other.after);
        let s = self.settings == other.settings;
        let f = files_eq(&self.files, &other.files);
        let r = b && a && s && f;
        proof {
            if r {
                assert(self@ =~= other@);
            }
        }
        r
    }
}

impl vstd::std_specs::cmp::PartialEqSpecImpl for Group {
    open spec fn obeys_eq_spec() -> bool {
        true
    }

    open spec fn eq_spec(&self, other: &Group) -> bool {
        self@ == other@
    }
}

/// The test a group generates for one matched file: the file's content
/// as the script, the group's scripts and settings copied.
pub open spec fn group_test(g: GroupView, content: Seq<char>) -> TestView {
    TestView { before: g.before, after: g.after, test: content, settings: g.settings }
}

/// The collection generated from the first `i` matched files, in match
/// order, inserted with mapping semantics: a path matched by several
/// patterns keeps a single entry.
pub open spec fn expand_prefix(g: GroupView, matched: Seq<(Seq<char>, Seq<char>)>, i: int) -> Seq<
    (Seq<char>, TestView),
>
    decreases i,
{
    if i <= 0 {
        Seq::empty()
    } else {
        insert_entry(
            expand_prefix(g, matched, i - 1),
            matched[i - 1].0,
            group_test(g, matched[i - 1].1),
        )
    }
}

/// The full expansion of a group over its matched files.
pub open spec fn group_expansion(g: GroupView, matched: Seq<(Seq<char>, Seq<char>)>) -> Seq<
    (Seq<char>, TestView),
> {
    expand_prefix(g, matched, matched.len() as int)
}

impl Group {
    /// Expands this group over its matched files.  `matched` holds, in
    /// pattern-declaration order with each pattern's matches
    /// concatenated, every matched path and that file's content.  Each
    /// matched file becomes one test named by its path, whose script is
    /// the file's content, carrying the group's before/after scripts and
    /// settings.  Walking the filesystem is the caller's work; this
    /// function holds the generation rule.
    pub fn into_tests(&self, matched: &Vec<(String, String)>) -> (r: Tests)
        ensures
            r@ == group_expansion(self@, env_view(matched@)),
            r.wf(),
    {
        let ghost mseq = env_view(matched@);
        let mut tests = Tests::new();
        proof {
            assert(mseq.len() == matched@.len());
        }
        let n = matched.len();
        for i in 0..n
            invariant
                n == matched@.len(),
                mseq == env_view(matched@),
                mseq.len() == n,
                tests@ == expand_prefix(self@, mseq, i as int),
                tests.wf(),
        {
            let name = matched[i].0.clone();
            let content = matched[i].1.clone();
            let t = Test {
                before: clone_opt_string(&self.before),
                after: clone_opt_string(&self.after),
                test: content,
                settings: self.settings.clone(),
            };
            proof {
                assert(mseq[i as int] == (matched@[i as int].0@, matched@[i as int].1@));
                assert(t@.before == self@.before);
                assert(t@.after == self@.after);
                assert(t@ == group_test(self@, mseq[i as int].1));
                assert(name@ == mseq[i as int].0);
            }
            tests.insert(name, t);
        }
        tests
    }
}

/// Where a test's lifecycle stands.
pub enum RunState {
    /// The before-script has been issued and not yet reported.
    AwaitBefore,
    /// The test script has been issued and not yet reported.
    AwaitTest,
    /// The after-script has been issued; carries the test script's error
    /// when the test script failed.
    AwaitAfter { test_error: Option<Error> },
    /// The lifecycle is over.
    Done { result: Result<(), Error> },
}

/// One test's lifecycle as a state machine.  The machine issues at most
/// one script at a time; the caller runs it and reports the interpreted
/// result back, and the machine decides what comes next: a failed
/// before-script aborts the run, the after-script always follows the
/// test script when one is declared, and a failed after-script takes
/// precedence in the reported outcome.
pub struct TestRun {
    /// Script to run before the test, when set.
    pub before: Option<String>,
    /// Script to run after the test, when set.
    pub after: Option<String>,
    /// The test script.
    pub test: String,
    /// The settings snapshot, resolved once from the global root and the
    /// test's own layer.
    pub settings: Settings,
    /// Where the lifecycle stands.
    pub state: RunState,
}

/// The state a lifecycle starts in: awaiting the before-script when one
/// is declared, else awaiting the test script itself.
pub open spec fn initial_state(t: TestView) -> RunState {
    if t.before is Some {
        RunState::AwaitBefore
    } else {
        RunState::AwaitTest
    }
}

/// The state after the pending script reports `res`:
/// - a failed before-script aborts the run at once, so the test and
///   after scripts are never issued;
/// - the test script's result is captured, and the after-script is
///   issued whenever one is declared, regardless of that result;
/// - a failed after-script takes precedence in the reported outcome;
///   otherwise the captured test result is the outcome.
pub open spec fn step_state(t: TestRun, res: Result<(), Error>) -> RunState {
    match t.state {
        RunState::AwaitBefore => match res {
            Result::Err(e) => RunState::Done { result: Err(e) },
            Result::Ok(_) => RunState::AwaitTest,
        },
        RunState::AwaitTest => match t.after {
            Some(_) => RunState::AwaitAfter {
                test_error: match res {
                    Result::Ok(_) => None,
                    Result::Err(e) => Some(e),
                },
            },
            None => RunState::Done { result: res },
        },
        RunState::AwaitAfter { test_error } => match res {
            Result::Err(e) => RunState::Done { result: Err(e) },
            Result::Ok(_) => RunState::Done {
                result: match test_error {
                    Some(e) => Err(e),
                    None => Ok(()),
                },
            },
        },
        RunState::Done { result } => RunState::Done { result },
    }
}

/// The script the machine is waiting on, paired with whether it is a
/// setup script (before/after) rather than the test script itself.
pub open spec fn pending_script(t: TestRun) -> Option<(Seq<char>, bool)> {
    match t.state {
        RunState::AwaitBefore => Some(((t.before->0)@, true)),
        RunState::AwaitTest => Some((t.test@, false)),
        RunState::AwaitAfter { .. } => Some(((t.after->0)@, true)),
        RunState::Done { .. } => None,
    }
}

impl TestRun {
    /// A waiting state only ever waits on a script that exists.
    pub open spec fn wf(self) -> bool {
        &&& (self.state is AwaitBefore ==> self.before is Some)
        &&& (self.state is AwaitAfter ==> self.after is Some)
    }

    /// Starts a lifecycle for one test under the global settings: the
    /// test's own settings layer over the global root, resolved once.
    pub fn new(test: &Test, global: &GlobalSettings) -> (r: TestRun)
        ensures
            opt_str_view(r.before) == test@.before,
            opt_str_view(r.after) == test@.after,
            r.test@ == test@.test,
            r.settings@ == resolved_view(global@.other_settings, seq![test@.settings]),
            r.state == initial_state(test@),
            r.wf(),
    {
        let mut layer: Vec<&Settings> = Vec::new();
        layer.push(&test.settings);
        let stack = global.stack(layer.as_slice());
        proof {
            assert(stack.layers_view() =~= seq![test@.settings]);
        }
        let resolved = stack.to_settings();
        let state = if test.before.is_some() {
            RunState::AwaitBefore
        } else {
            RunState::AwaitTest
        };
        TestRun {
            before: clone_opt_string(&test.before),
            after: clone_opt_string(&test.after),
            test: test.test.clone(),
            settings: resolved,
            state,
        }
    }

    /// The invocation for the script the machine is waiting on, built
    /// over the resolved settings snapshot; nothing once the lifecycle
    /// is done.
    pub fn next_action(&self) -> (r: Option<Invocation>)
        requires
            self.wf(),
        ensures
            (r is Some) <==> !(self.state is Done),
            r matches Some(inv) ==> ({
                let ps = pending_script(*self);
                ps is Some && inv@ == invocation_view(
                    self.settings@,
                    Seq::empty(),
                    (ps->0).0,
                    (ps->0).1,
                )
            }),
    {
        let script: &String;
        let setup: bool;
        match &self.state {
            RunState::AwaitBefore => {
                match &self.before {
                    Some(b) => {
                        script = b;
                        setup = true;
                    },
                    None => {
                        proof {
                            assert(false);
                        }
                        return unreached();
                    },
                }
            },
            RunState::AwaitTest => {
                script = &self.test;
                setup = false;
            },
            RunState::AwaitAfter { .. } => {
                match &self.after {
                    Some(a) => {
                        script = a;
                        setup = true;
                    },
                    None => {
                        proof {
                            assert(false);
                        }
                        return unreached();
                    },
                }
            },
            RunState::Done { .. } => {
                return None;
            },
        }
        let layers: Vec<&Settings> = Vec::new();
        let stack = self.settings.stack(layers.as_slice());
        proof {
            assert(stack.layers_view() =~= Seq::<SettingsView>::empty());
        }
        Some(CommandBuilder::new(script.as_str()).invocation(&stack, setup))
    }

    /// Feeds back the interpreted result of the script last issued and
    /// moves the machine to its next state, as `step_state` lays down.
    pub fn step(self, res: Result<(), Error>) -> (r: TestRun)
        requires
            self.wf(),
            !(self.state is Done),
        ensures
            r.state == step_state(self, res),
            r.before == self.before,
            r.after == self.after,
            r.test == self.test,
            r.settings == self.settings,
            r.wf(),
    {
        let TestRun { before, after, test, settings, state } = self;
        let next = match state {
            RunState::AwaitBefore => match res {
                Result::Err(e) => RunState::Done { result: Err(e) },
                Result::Ok(_) => RunState::AwaitTest,
            },
            RunState::AwaitTest => {
                if after.is_some() {
                    RunState::AwaitAfter {
                        test_error: match res {
                            Result::Ok(_) => None,
                            Result::Err(e) => Some(e),
                        },
                    }
                } else {
                    RunState::Done { result: res }
                }
            },
            RunState::AwaitAfter { test_error } => match res {
                Result::Err(e) => RunState::Done { result: Err(e) },
                Result::Ok(_) => match test_error {
                    Some(e) => RunState::Done { result: Err(e) },
                    None => RunState::Done { result: Ok(()) },
                },
            },
            RunState::Done { .. } => {
                proof {
                    assert(false);
                }
                unreached()
            },
        };
        TestRun { before, after, test, settings, state: next }
    }

    /// Whether the lifecycle is over.
    pub fn finished(&self) -> (r: bool)
        ensures
            r == (self.state is Done),
    {
        match &self.state {
            RunState::Done { .. } => true,
            _ => false,
        }
    }

    /// The final outcome, once the lifecycle is over.
    pub fn into_result(self) -> (r: Result<(), Error>)
        requires
            self.state is Done,
        ensures
            self.state matches RunState::Done { result } && r == result,
    {
        match self.state {
            RunState::Done { result } => result,
            _ => {
                proof {
                    assert(false);
                }
                unreached()
            },
        }
    }
}

/// A test whose before-script fails is aborted: the machine is done at
/// once with that error, and neither the test script nor the
/// after-script is ever issued.
pub proof fn lemma_before_failure_aborts(t: TestRun, t2: TestRun, e: Error)
    requires
        t.wf(),
        t.state is AwaitBefore,
        t2.state == step_state(t, Err(e)),
    ensures
        t2.state matches RunState::Done { result } && result == Err::<(), Error>(e),
        pending_script(t2) is None,
{
}

/// A test whose test script fails still has its after-script issued —
/// when one is declared — before the failure is reported.
pub proof fn lemma_after_runs_despite_test_failure(t: TestRun, t2: TestRun, e: Error)
    requires
        t.wf(),
        t.state is AwaitTest,
        t.after is Some,
        t2.state == step_state(t, Err(e)),
        t2.after == t.after,
    ensures
        t2.state matches RunState::AwaitAfter { test_error } && test_error == Some(e),
        pending_script(t2) == Some(((t.after->0)@, true)),
{
}

/// Once the after-script has reported, the outcome joins the two
/// results: the after-script's own error takes precedence; otherwise
/// the captured test result — error or success — is the outcome.
pub proof fn lemma_outcome_after_teardown(
    t: TestRun,
    t2: TestRun,
    res: Result<(), Error>,
    te: Option<Error>,
)
    requires
        t.wf(),
        t.state == (RunState::AwaitAfter { test_error: te }),
        t2.state == step_state(t, res),
    ensures
        res matches Err(e) ==> t2.state == (RunState::Done { result: Err::<(), Error>(e) }),
        (res is Ok && te is Some) ==> t2.state == (RunState::Done {
            result: Err::<(), Error>(te->0),
        }),
        (res is Ok && te is None) ==> t2.state == (RunState::Done { result: Ok::<(), Error>(()) }),
        pending_script(t2) is None,
{
}

} // verus!
