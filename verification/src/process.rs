//! What to run, and what to call when something happens to it.

use crate::text::{push_quoted, quoted};
use crate::time::Duration;
use vstd::prelude::*;

verus! {

/// How many messages the channel to a process's stdin holds before a sender has to wait.
pub const STDIN_CAPACITY: usize = 10;

/// The cancellation timeout of a process that sets no other, in seconds.
pub const DEFAULT_CANCEL_TIMEOUT_SECS: u64 = 1;

/// Stands for a callback, or for a channel, that the embedding program keeps.
pub type Handle = u64;

/// The callbacks of a process.
#[derive(Clone, Copy, PartialEq, Eq, Debug)]
pub struct ProcessCallbacks {
    /// Called with each line that the process writes to stdout.
    pub on_stdout: Option<Handle>,
    /// Called with each line that the process writes to stderr.
    pub on_stderr: Option<Handle>,
    /// Called when the process has been started or restarted.
    pub on_start: Option<Handle>,
    /// Called when the process has exited.
    pub on_exit: Option<Handle>,
    /// Produces the file descriptors to share with the next child. It is called once at most.
    pub fds: Option<Handle>,
}

/// No callback at all.
pub open spec fn no_callbacks() -> ProcessCallbacks {
    ProcessCallbacks { on_stdout: None, on_stderr: None, on_start: None, on_exit: None, fds: None }
}

impl Default for ProcessCallbacks {
    fn default() -> (callbacks: Self)
        ensures
            callbacks == no_callbacks(),
    {
        ProcessCallbacks {
            on_stdout: None,
            on_stderr: None,
            on_start: None,
            on_exit: None,
            fds: None,
        }
    }
}

/// A process to run.
#[derive(Debug)]
pub struct Process {
    /// The executable to run.
    pub executable: String,
    /// The arguments to pass to the executable.
    pub args: Vec<String>,
    /// The environment variables to pass to the executable.
    pub env: Vec<(String, String)>,
    /// What to call when something happens.
    pub callbacks: ProcessCallbacks,
    /// The channel over which messages for stdin are sent.
    pub stdin_tx: Handle,
    /// The channel from which messages for stdin are received, until the process is started.
    pub stdin_rx: Option<Handle>,
    /// How long a cancelled process may take to exit before it is forced to.
    pub cancel_timeout: Option<Duration>,
}

/// The model of a [`Process`].
pub struct ProcessView {
    pub executable: Seq<char>,
    pub args: Seq<Seq<char>>,
    pub env: Seq<(Seq<char>, Seq<char>)>,
    pub callbacks: ProcessCallbacks,
    pub stdin_tx: Handle,
    pub stdin_rx: Option<Handle>,
    pub cancel_timeout: Option<Duration>,
}

/// The texts of `strings`.
pub open spec fn texts(strings: Seq<String>) -> Seq<Seq<char>> {
    strings.map_values(|s: String| s@)
}

/// The texts of the names and values in `env`.
pub open spec fn bindings(env: Seq<(String, String)>) -> Seq<(Seq<char>, Seq<char>)> {
    env.map_values(|binding: (String, String)| (binding.0@, binding.1@))
}

/// Whether `env` gives `name` a value.
pub open spec fn binds(env: Seq<(Seq<char>, Seq<char>)>, name: Seq<char>) -> bool {
    exists|i: int| 0 <= i < env.len() && #[trigger] env[i].0 == name
}

/// `env` without the names that `update` binds, followed by `update`.
pub open spec fn updated_env(
    env: Seq<(Seq<char>, Seq<char>)>,
    update: Seq<(Seq<char>, Seq<char>)>,
) -> Seq<(Seq<char>, Seq<char>)> {
    env.filter(|binding: (Seq<char>, Seq<char>)| !binds(update, binding.0)) + update
}

/// The text of `args`: each argument quoted if it holds a space, with a space before it.
pub open spec fn args_text(args: Seq<Seq<char>>) -> Seq<char>
    decreases args.len(),
{
    if args.len() == 0 {
        Seq::empty()
    } else {
        args_text(args.drop_last()) + " "@ + quoted(args.last())
    }
}

/// The text of `env`: each variable as its name, an equals sign and its value, which is quoted
/// if it holds a space, with a space before it.
pub open spec fn env_text(env: Seq<(Seq<char>, Seq<char>)>) -> Seq<char>
    decreases env.len(),
{
    if env.len() == 0 {
        Seq::empty()
    } else {
        env_text(env.drop_last()) + " "@ + env.last().0 + "="@ + quoted(env.last().1)
    }
}

/// What a child process is made from.
#[derive(Debug)]
pub struct Command {
    pub executable: String,
    pub args: Vec<String>,
    pub env: Vec<(String, String)>,
}

/// The model of a [`Command`].
pub struct CommandView {
    pub executable: Seq<char>,
    pub args: Seq<Seq<char>>,
    pub env: Seq<(Seq<char>, Seq<char>)>,
}

impl View for Command {
    type V = CommandView;

    open spec fn view(&self) -> CommandView {
        CommandView {
            executable: self.executable@,
            args: texts(self.args@),
            env: bindings(self.env@),
        }
    }
}

impl ProcessView {
    /// What a child of this process is made from.
    pub open spec fn command(self) -> CommandView {
        CommandView { executable: self.executable, args: self.args, env: self.env }
    }
}

impl View for Process {
    type V = ProcessView;

    open spec fn view(&self) -> ProcessView {
        ProcessView {
            executable: self.executable@,
            args: texts(self.args@),
            env: bindings(self.env@),
            callbacks: self.callbacks,
            stdin_tx: self.stdin_tx,
            stdin_rx: self.stdin_rx,
            cancel_timeout: self.cancel_timeout,
        }
    }
}

/// Copies `strings`.
fn copy_texts(strings: &Vec<String>) -> (copy: Vec<String>)
    ensures
        texts(copy@) == texts(strings@),
{
    let mut copy: Vec<String> = Vec::new();
    for i in 0..strings.len()
        invariant
            copy@ == strings@.take(i as int),
    {
        copy.push(strings[i].clone());
    }
    copy
}

/// Copies `env`.
fn copy_bindings(env: &Vec<(String, String)>) -> (copy: Vec<(String, String)>)
    ensures
        bindings(copy@) == bindings(env@),
{
    let mut copy: Vec<(String, String)> = Vec::new();
    for i in 0..env.len()
        invariant
            copy@ == env@.take(i as int),
    {
        copy.push((env[i].0.clone(), env[i].1.clone()));
    }
    copy
}

/// Returns whether `env` gives `name` a value.
fn has_binding(env: &Vec<(String, String)>, name: &String) -> (yes: bool)
    ensures
        yes == binds(bindings(env@), name@),
{
    for i in 0..env.len()
        invariant
            forall|j: int| 0 <= j < i ==> #[trigger] env@[j].0@ != name@,
    {
        if env[i].0 == *name {
            assert(bindings(env@)[i as int].0 == name@);
            return true;
        }
    }
    proof {
        if binds(bindings(env@), name@) {
            let j = choose|j: int|
                0 <= j < bindings(env@).len() && #[trigger] bindings(env@)[j].0 == name@;
            assert(env@[j].0@ == name@);
        }
    }
    false
}

impl Process {
    /// Creates a process with nothing to run yet, and with a cancellation timeout of one second.
    /// `stdin` is the channel for messages to its stdin.
    pub fn new(stdin: Handle) -> (process: Self)
        ensures
            process@.executable == Seq::<char>::empty(),
            process@.args == Seq::<Seq<char>>::empty(),
            process@.env == Seq::<(Seq<char>, Seq<char>)>::empty(),
            process@.callbacks == no_callbacks(),
            process@.stdin_tx == stdin,
            process@.stdin_rx == Some(stdin),
            process@.cancel_timeout is Some,
            process@.cancel_timeout->0@ == DEFAULT_CANCEL_TIMEOUT_SECS as nat * 1_000_000_000,
            process@.cancel_timeout->0@ == 1_000_000_000,
    {
        Process {
            executable: String::new(),
            args: Vec::new(),
            env: Vec::new(),
            callbacks: ProcessCallbacks::default(),
            stdin_tx: stdin,
            stdin_rx: Some(stdin),
            cancel_timeout: Some(Duration::from_secs(DEFAULT_CANCEL_TIMEOUT_SECS)),
        }
    }

    /// Sets the executable to run.
    pub fn with_executable(self, executable: String) -> (process: Self)
        ensures
            process@ == (ProcessView { executable: executable@, ..self@ }),
    {
        Process { executable, ..self }
    }

    /// Sets the arguments to pass to the executable.
    pub fn with_args(self, args: Vec<String>) -> (process: Self)
        ensures
            process@ == (ProcessView { args: texts(args@), ..self@ }),
    {
        Process { args, ..self }
    }

    /// Sets the cancellation timeout before forcing the process to exit.
    pub fn with_cancel_timeout(self, timeout: Option<Duration>) -> (process: Self)
        ensures
            process@ == (ProcessView { cancel_timeout: timeout, ..self@ }),
    {
        Process { cancel_timeout: timeout, ..self }
    }

    /// Sets the environment variables to pass to the executable.
    pub fn with_env(self, env: Vec<(String, String)>) -> (process: Self)
        ensures
            process@ == (ProcessView { env: bindings(env@), ..self@ }),
    {
        Process { env, ..self }
    }

    /// Sets the callback to run when the process writes to stdout.
    pub fn with_on_stdout(self, on_stdout: Handle) -> (process: Self)
        ensures
            process@ == (ProcessView {
                callbacks: ProcessCallbacks { on_stdout: Some(on_stdout), ..self@.callbacks },
                ..self@
            }),
    {
        Process {
            callbacks: ProcessCallbacks { on_stdout: Some(on_stdout), ..self.callbacks },
            ..self
        }
    }

    /// Sets the callback to run when the process writes to stderr.
    pub fn with_on_stderr(self, on_stderr: Handle) -> (process: Self)
        ensures
            process@ == (ProcessView {
                callbacks: ProcessCallbacks { on_stderr: Some(on_stderr), ..self@.callbacks },
                ..self@
            }),
    {
        Process {
            callbacks: ProcessCallbacks { on_stderr: Some(on_stderr), ..self.callbacks },
            ..self
        }
    }

    /// Shares file descriptors with the child process. `fds` produces them.
    pub fn with_fds(self, fds: Handle) -> (process: Self)
        ensures
            process@ == (ProcessView {
                callbacks: ProcessCallbacks { fds: Some(fds), ..self@.callbacks },
                ..self@
            }),
    {
        Process {
            callbacks: ProcessCallbacks { fds: Some(fds), ..self.callbacks },
            ..self
        }
    }

    /// Sets the callback to run when the process has been started or restarted.
    pub fn with_on_start(self, on_start: Handle) -> (process: Self)
        ensures
            process@ == (ProcessView {
                callbacks: ProcessCallbacks { on_start: Some(on_start), ..self@.callbacks },
                ..self@
            }),
    {
        Process {
            callbacks: ProcessCallbacks { on_start: Some(on_start), ..self.callbacks },
            ..self
        }
    }

    /// Sets the callback to run when the process exits. It is called after the process exits,
    /// and before it restarts.
    pub fn with_on_exit(self, on_exit: Handle) -> (process: Self)
        ensures
            process@ == (ProcessView {
                callbacks: ProcessCallbacks { on_exit: Some(on_exit), ..self@.callbacks },
                ..self@
            }),
    {
        Process {
            callbacks: ProcessCallbacks { on_exit: Some(on_exit), ..self.callbacks },
            ..self
        }
    }

    /// What to make a child of this process from.
    pub fn command(&self) -> (command: Command)
        ensures
            command@ == self@.command(),
    {
        Command {
            executable: self.executable.clone(),
            args: copy_texts(&self.args),
            env: copy_bindings(&self.env),
        }
    }

    /// Binds the names in `update` anew, and leaves the other environment variables alone.
    pub fn update_env(&mut self, update: Vec<(String, String)>)
        ensures
            final(self)@ == (ProcessView {
                env: updated_env(old(self)@.env, bindings(update@)),
                ..old(self)@
            }),
    {
        let mut update = update;
        let mut env: Vec<(String, String)> = Vec::new();
        let ghost keep = |binding: (Seq<char>, Seq<char>)| !binds(bindings(update@), binding.0);
        let ghost before = bindings(self.env@);
        assert(before.take(0).filter(keep) =~= bindings(env@)) by {
            reveal(Seq::filter);
        }
        for i in 0..self.env.len()
            invariant
                before == bindings(self.env@),
                keep == |binding: (Seq<char>, Seq<char>)| !binds(bindings(update@), binding.0),
                bindings(env@) == before.take(i as int).filter(keep),
        {
            let ghost kept = env@;
            let ghost binding = before[i as int];
            assert(before.take(i + 1) =~= before.take(i as int).push(binding));
            proof {
                before.take(i as int).lemma_filter_push(binding, keep);
            }
            if !has_binding(&update, &self.env[i].0) {
                env.push((self.env[i].0.clone(), self.env[i].1.clone()));
                assert(bindings(env@) =~= bindings(kept).push(binding));
            }
        }
        assert(before.take(before.len() as int) =~= before);
        let ghost kept = env@;
        let ghost added = update@;
        env.append(&mut update);
        assert(bindings(env@) =~= bindings(kept) + bindings(added));
        self.env = env;
    }

    /// Returns a human readable, escaped string of the executable. Used for logging.
    pub fn exe_text(&self) -> (text: String)
        ensures
            text@ == quoted(self@.executable),
    {
        let mut text = String::new();
        push_quoted(&mut text, self.executable.as_str());
        assert(text@ =~= quoted(self@.executable));
        text
    }

    /// Returns a human readable, escaped string of the environment variables. Used for logging.
    pub fn env_text(&self) -> (text: String)
        ensures
            text@ == env_text(self@.env),
    {
        let mut text = String::new();
        let ghost env = self@.env;
        for i in 0..self.env.len()
            invariant
                env == bindings(self.env@),
                text@ == env_text(env.take(i as int)),
        {
            assert(env.take(i + 1).drop_last() =~= env.take(i as int));
            text.append(" ");
            text.append(self.env[i].0.as_str());
            text.append("=");
            push_quoted(&mut text, self.env[i].1.as_str());
        }
        assert(env.take(env.len() as int) =~= env);
        text
    }

    /// Returns a human readable, escaped string of the arguments. Used for logging.
    pub fn args_text(&self) -> (text: String)
        ensures
            text@ == args_text(self@.args),
    {
        let mut text = String::new();
        let ghost args = self@.args;
        for i in 0..self.args.len()
            invariant
                args == texts(self.args@),
                text@ == args_text(args.take(i as int)),
        {
            assert(args.take(i + 1).drop_last() =~= args.take(i as int));
            text.append(" ");
            push_quoted(&mut text, self.args[i].as_str());
        }
        assert(args.take(args.len() as int) =~= args);
        text
    }
}

/// After an update, every name that it binds has the values that it gives, in its order and
/// nothing else, and every other binding is kept as it was.
pub proof fn lemma_update_binds_anew(
    env: Seq<(Seq<char>, Seq<char>)>,
    update: Seq<(Seq<char>, Seq<char>)>,
    binding: (Seq<char>, Seq<char>),
)
    ensures
        binds(update, binding.0) ==> (updated_env(env, update).contains(binding)
            == update.contains(binding)),
        !binds(update, binding.0) ==> (updated_env(env, update).contains(binding)
            == env.contains(binding)),
        updated_env(env, update).skip(updated_env(env, update).len() - update.len()) == update,
{
    let keep = |b: (Seq<char>, Seq<char>)| !binds(update, b.0);
    let kept = env.filter(keep);
    let updated = updated_env(env, update);
    assert(updated.skip(updated.len() - update.len()) =~= update);
    assert(kept.contains(binding) <==> env.contains(binding) && keep(binding)) by {
        if env.contains(binding) && keep(binding) {
            let i = choose|i: int| 0 <= i < env.len() && env[i] == binding;
            env.lemma_filter_contains(keep, i);
        }
        if kept.contains(binding) {
            env.lemma_filter_contains_rev(keep, binding);
            let i = choose|i: int| 0 <= i < kept.len() && kept[i] == binding;
            env.lemma_filter_pred(keep, i);
        }
    }
    assert(update.contains(binding) ==> binds(update, binding.0)) by {
        if update.contains(binding) {
            let i = choose|i: int| 0 <= i < update.len() && update[i] == binding;
            assert(update[i].0 == binding.0);
        }
    }
    assert(updated.contains(binding) <==> kept.contains(binding) || update.contains(binding)) by {
        if kept.contains(binding) {
            let i = choose|i: int| 0 <= i < kept.len() && kept[i] == binding;
            assert(updated[i] == binding);
        }
        if update.contains(binding) {
            let i = choose|i: int| 0 <= i < update.len() && update[i] == binding;
            assert(updated[kept.len() + i] == binding);
        }
        if updated.contains(binding) {
            let i = choose|i: int| 0 <= i < updated.len() && updated[i] == binding;
            if i < kept.len() {
                assert(kept[i] == binding);
            } else {
                assert(update[i - kept.len()] == binding);
            }
        }
    }
}

/// What an update keeps, a second one of the same kind keeps too.
proof fn lemma_kept_is_kept<A>(s: Seq<A>, keep: spec_fn(A) -> bool)
    ensures
        s.filter(keep).filter(keep) == s.filter(keep),
    decreases s.len(),
{
    reveal(Seq::filter);
    if s.len() > 0 {
        let rest = s.drop_last();
        lemma_kept_is_kept(rest, keep);
        if keep(s.last()) {
            assert(s.filter(keep).drop_last() =~= rest.filter(keep));
        }
    }
}

/// Repeating an update changes nothing.
pub proof fn lemma_update_is_idempotent(
    env: Seq<(Seq<char>, Seq<char>)>,
    update: Seq<(Seq<char>, Seq<char>)>,
)
    ensures
        updated_env(updated_env(env, update), update) == updated_env(env, update),
{
    let keep = |b: (Seq<char>, Seq<char>)| !binds(update, b.0);
    let kept = env.filter(keep);
    Seq::filter_distributes_over_add(kept, update, keep);
    lemma_kept_is_kept(env, keep);
    assert(update.filter(keep) =~= Seq::empty()) by {
        if update.filter(keep).len() > 0 {
            let binding = update.filter(keep)[0];
            update.lemma_filter_pred(keep, 0);
            assert(update.filter(keep).contains(binding));
            update.lemma_filter_contains_rev(keep, binding);
            let i = choose|i: int| 0 <= i < update.len() && update[i] == binding;
            assert(update[i].0 == binding.0);
        }
    }
    assert(kept + Seq::empty() =~= kept);
}

/// An update takes what is kept in its order: a binding that comes last is kept after the others,
/// unless the update binds its name, and then nothing is left of it.
pub proof fn lemma_update_keeps_the_order(
    env: Seq<(Seq<char>, Seq<char>)>,
    update: Seq<(Seq<char>, Seq<char>)>,
    binding: (Seq<char>, Seq<char>),
)
    ensures
        updated_env(Seq::empty(), update) == update,
        ({
            let before = updated_env(env, update);
            let after = updated_env(env.push(binding), update);
            if exists|i: int| 0 <= i < update.len() && #[trigger] update[i].0 == binding.0 {
                after == before
            } else {
                after == before.take(before.len() - update.len()).push(binding) + update
            }
        }),
{
    let keep = |b: (Seq<char>, Seq<char>)| !binds(update, b.0);
    let none = Seq::<(Seq<char>, Seq<char>)>::empty();
    assert(none.filter(keep) =~= none) by {
        reveal(Seq::filter);
    }
    assert(none + update =~= update);
    env.lemma_filter_push(binding, keep);
    assert(updated_env(env, update).take(updated_env(env, update).len() - update.len())
        =~= env.filter(keep));
}

/// Arguments are spelled one after the other, each after a space, and quoted if it holds one.
pub proof fn lemma_arguments_are_spelled_in_order(args: Seq<Seq<char>>, arg: Seq<char>)
    ensures
        args_text(Seq::empty()) == Seq::<char>::empty(),
        arg.contains(' ') ==> args_text(args.push(arg)) == args_text(args) + seq![' ', '"'] + arg
            + seq!['"'],
        !arg.contains(' ') ==> args_text(args.push(arg)) == args_text(args) + seq![' '] + arg,
{
    reveal_strlit(" ");
    reveal_strlit("\"");
    assert(args.push(arg).drop_last() =~= args);
    if arg.contains(' ') {
        assert(args_text(args.push(arg)) =~= args_text(args) + seq![' ', '"'] + arg + seq!['"']);
    } else {
        assert(args_text(args.push(arg)) =~= args_text(args) + seq![' '] + arg);
    }
}

/// Environment variables are spelled one after the other, each after a space, as the name, an
/// equals sign and the value, which is quoted if it holds a space.
pub proof fn lemma_variables_are_spelled_in_order(
    env: Seq<(Seq<char>, Seq<char>)>,
    name: Seq<char>,
    value: Seq<char>,
)
    ensures
        env_text(Seq::empty()) == Seq::<char>::empty(),
        value.contains(' ') ==> env_text(env.push((name, value))) == env_text(env) + seq![' ']
            + name + seq!['=', '"'] + value + seq!['"'],
        !value.contains(' ') ==> env_text(env.push((name, value))) == env_text(env) + seq![' ']
            + name + seq!['='] + value,
{
    reveal_strlit(" ");
    reveal_strlit("=");
    reveal_strlit("\"");
    assert(env.push((name, value)).drop_last() =~= env);
    if value.contains(' ') {
        assert(env_text(env.push((name, value))) =~= env_text(env) + seq![' '] + name + seq![
            '=',
            '"',
        ] + value + seq!['"']);
    } else {
        assert(env_text(env.push((name, value))) =~= env_text(env) + seq![' '] + name + seq!['=']
            + value);
    }
}

/// Texts and bindings are taken over one by one, in order, and a child is made from what the
/// process is configured with.
pub proof fn lemma_nothing_is_left_out(
    strings: Seq<String>,
    env: Seq<(String, String)>,
    process: ProcessView,
    i: int,
)
    ensures
        texts(strings).len() == strings.len(),
        0 <= i < strings.len() ==> texts(strings)[i] == strings[i]@,
        bindings(env).len() == env.len(),
        0 <= i < env.len() ==> bindings(env)[i] == (env[i].0@, env[i].1@),
        process.command().executable == process.executable,
        process.command().args == process.args,
        process.command().env == process.env,
        no_callbacks().on_stdout is None,
        no_callbacks().on_stderr is None,
        no_callbacks().on_start is None,
        no_callbacks().on_exit is None,
        no_callbacks().fds is None,
{
}

} // verus!
