//! Tasks, plans and manifests: what a plugin hands to the build host.
//!
//! A plugin does not run anything itself. Configuring a module gives a
//! [`Plan`]: the tasks to register with the host, in order, and how
//! configuration ended. Tasks that precede an error are registered before the
//! error is reported.

use crate::text::{no_texts, one_text, plain_result, texts};
use vstd::prelude::*;

verus! {

/// The tools the host lets a task run.
#[derive(Clone, Copy, PartialEq, Eq, Structural, Debug)]
pub enum AllowlistedTool {
    Javac,
    Kotlinc,
    Aapt2,
    Jar,
    Java,
    Mkdir,
    Cp,
    Apksigner,
}

/// One run of a tool.
#[derive(Debug)]
pub struct RunToolArgs {
    pub tool: AllowlistedTool,
    pub args: Vec<String>,
    pub cwd: String,
}

/// One file to write.
#[derive(Debug)]
pub struct WriteFileArgs {
    pub path: String,
    pub contents: String,
}

/// What a task does.
#[derive(Debug)]
pub enum Action {
    RunTool(RunToolArgs),
    WriteFile(WriteFileArgs),
}

/// A unit of work for the host. The host leaves a task alone until one of its
/// inputs, or a task it depends on, changes.
#[derive(Debug)]
pub struct Task {
    pub name: String,
    pub inputs: Vec<String>,
    pub outputs: Vec<String>,
    pub depends_on: Vec<String>,
    pub action: Action,
}

/// What configuring a module gives: tasks to register in order, then the
/// outcome.
#[derive(Debug)]
pub struct Plan {
    pub tasks: Vec<Task>,
    pub outcome: Result<(), String>,
}

/// How a plugin introduces itself to the host.
#[derive(Debug)]
pub struct PluginManifest {
    pub name: String,
    pub version: String,
    pub abi_version: String,
    pub tools: Vec<String>,
    pub dependencies: Vec<String>,
}

/// The mathematical counterpart of [`Action`].
pub enum ActionModel {
    RunTool { tool: AllowlistedTool, args: Seq<Seq<char>>, cwd: Seq<char> },
    WriteFile { path: Seq<char>, contents: Seq<char> },
}

/// The mathematical counterpart of [`Task`].
pub struct TaskModel {
    pub name: Seq<char>,
    pub inputs: Seq<Seq<char>>,
    pub outputs: Seq<Seq<char>>,
    pub depends_on: Seq<Seq<char>>,
    pub action: ActionModel,
}

/// The mathematical counterpart of [`Plan`].
pub struct PlanModel {
    pub tasks: Seq<TaskModel>,
    pub outcome: Result<(), Seq<char>>,
}

/// The mathematical counterpart of [`PluginManifest`].
pub struct ManifestModel {
    pub name: Seq<char>,
    pub version: Seq<char>,
    pub abi_version: Seq<char>,
    pub tools: Seq<Seq<char>>,
    pub dependencies: Seq<Seq<char>>,
}

impl View for Action {
    type V = ActionModel;

    open spec fn view(&self) -> ActionModel {
        match self {
            Action::RunTool(run) => ActionModel::RunTool {
                tool: run.tool,
                args: texts(run.args@),
                cwd: run.cwd@,
            },
            Action::WriteFile(file) => ActionModel::WriteFile {
                path: file.path@,
                contents: file.contents@,
            },
        }
    }
}

impl View for Task {
    type V = TaskModel;

    open spec fn view(&self) -> TaskModel {
        TaskModel {
            name: self.name@,
            inputs: texts(self.inputs@),
            outputs: texts(self.outputs@),
            depends_on: texts(self.depends_on@),
            action: self.action@,
        }
    }
}

impl View for Plan {
    type V = PlanModel;

    open spec fn view(&self) -> PlanModel {
        PlanModel { tasks: task_models(self.tasks@), outcome: plain_result(self.outcome) }
    }
}

impl View for PluginManifest {
    type V = ManifestModel;

    open spec fn view(&self) -> ManifestModel {
        ManifestModel {
            name: self.name@,
            version: self.version@,
            abi_version: self.abi_version@,
            tools: texts(self.tools@),
            dependencies: texts(self.dependencies@),
        }
    }
}

/// The tasks of a list, by their models.
pub open spec fn task_models(tasks: Seq<Task>) -> Seq<TaskModel> {
    tasks.map_values(|task: Task| task@)
}

/// A fallible list of tasks, by their models.
pub open spec fn tasks_result(r: Result<Vec<Task>, String>) -> Result<
    Seq<TaskModel>,
    Seq<char>,
> {
    match r {
        Ok(tasks) => Ok(task_models(tasks@)),
        Err(e) => Err(e@),
    }
}

/// A task that runs a tool in the host's working directory.
pub open spec fn tool_task(
    name: Seq<char>,
    inputs: Seq<Seq<char>>,
    outputs: Seq<Seq<char>>,
    depends_on: Seq<Seq<char>>,
    tool: AllowlistedTool,
    args: Seq<Seq<char>>,
) -> TaskModel {
    TaskModel {
        name,
        inputs,
        outputs,
        depends_on,
        action: ActionModel::RunTool { tool, args, cwd: "."@ },
    }
}

/// A task that writes a file.
pub open spec fn file_task(
    name: Seq<char>,
    path: Seq<char>,
    contents: Seq<char>,
    depends_on: Seq<Seq<char>>,
) -> TaskModel {
    TaskModel {
        name,
        inputs: seq![],
        outputs: seq![path],
        depends_on,
        action: ActionModel::WriteFile { path, contents },
    }
}

/// A plan that registers nothing and ends in an error.
pub open spec fn refused(reason: Seq<char>) -> PlanModel {
    PlanModel { tasks: seq![], outcome: Err(reason) }
}

/// A plan that registers the given tasks and succeeds.
pub open spec fn planned(tasks: Seq<TaskModel>) -> PlanModel {
    PlanModel { tasks, outcome: Ok(()) }
}

/// The plan that registers `tasks` and goes on with `rest`.
pub open spec fn preceded(tasks: Seq<TaskModel>, rest: PlanModel) -> PlanModel {
    PlanModel { tasks: tasks + rest.tasks, outcome: rest.outcome }
}

/// One plan after another; the second is taken up only where the first
/// succeeds.
pub open spec fn sequenced(first: PlanModel, second: PlanModel) -> PlanModel {
    match first.outcome {
        Ok(()) => preceded(first.tasks, second),
        Err(_) => first,
    }
}

/// The name by which a manifest declares a tool.
pub open spec fn tool_name(tool: AllowlistedTool) -> Seq<char> {
    match tool {
        AllowlistedTool::Javac => "javac"@,
        AllowlistedTool::Kotlinc => "kotlinc"@,
        AllowlistedTool::Aapt2 => "aapt2"@,
        AllowlistedTool::Jar => "jar"@,
        AllowlistedTool::Java => "java"@,
        AllowlistedTool::Mkdir => "mkdir"@,
        AllowlistedTool::Cp => "cp"@,
        AllowlistedTool::Apksigner => "apksigner"@,
    }
}

/// A task's tool, if it runs one, is among the given tools.
pub open spec fn uses_declared_tool(task: TaskModel, tools: Seq<Seq<char>>) -> bool {
    match task.action {
        ActionModel::RunTool { tool, .. } => tools.contains(tool_name(tool)),
        ActionModel::WriteFile { .. } => true,
    }
}

/// Every tool the tasks run is among the given tools.
pub open spec fn all_use_declared_tools(tasks: Seq<TaskModel>, tools: Seq<Seq<char>>) -> bool {
    forall|i: int| 0 <= i < tasks.len() ==> uses_declared_tool(#[trigger] tasks[i], tools)
}

/// One of the tasks has the given name.
pub open spec fn is_named(tasks: Seq<TaskModel>, name: Seq<char>) -> bool {
    exists|i: int| 0 <= i < tasks.len() && (#[trigger] tasks[i]).name == name
}

/// Everything a task depends on has a task in `tasks`, or is `outside`.
pub open spec fn is_satisfied(
    task: TaskModel,
    tasks: Seq<TaskModel>,
    outside: spec_fn(Seq<char>) -> bool,
) -> bool {
    forall|k: int|
        0 <= k < task.depends_on.len() ==> is_named(tasks, #[trigger] task.depends_on[k])
            || outside(task.depends_on[k])
}

/// Every task depends only on tasks that come before it, or on names that are
/// `outside`.
pub open spec fn in_order(
    tasks: Seq<TaskModel>,
    outside: spec_fn(Seq<char>) -> bool,
) -> bool {
    forall|i: int|
        0 <= i < tasks.len() ==> is_satisfied(#[trigger] tasks[i], tasks.take(i), outside)
}

/// No name counts as outside.
pub open spec fn nothing_outside() -> spec_fn(Seq<char>) -> bool {
    |name: Seq<char>| false
}

/// A task that is there stays there when others are added behind.
pub proof fn lemma_named_in_a_longer_list(
    tasks: Seq<TaskModel>,
    more: Seq<TaskModel>,
    name: Seq<char>,
)
    requires
        is_named(tasks, name),
    ensures
        is_named(tasks + more, name),
{
    let i = choose|i: int| 0 <= i < tasks.len() && (#[trigger] tasks[i]).name == name;
    assert((tasks + more)[i].name == name);
}

/// Adding a task whose dependencies are there keeps a list in order.
pub proof fn lemma_add_in_order(
    tasks: Seq<TaskModel>,
    task: TaskModel,
    outside: spec_fn(Seq<char>) -> bool,
)
    requires
        in_order(tasks, outside),
        is_satisfied(task, tasks, outside),
    ensures
        in_order(tasks.push(task), outside),
        forall|name: Seq<char>| is_named(tasks, name) ==> is_named(tasks.push(task), name),
        is_named(tasks.push(task), task.name),
{
    let longer = tasks.push(task);
    assert forall|i: int| 0 <= i < longer.len() implies is_satisfied(
        #[trigger] longer[i],
        longer.take(i),
        outside,
    ) by {
        if i < tasks.len() {
            assert(longer.take(i) == tasks.take(i));
            assert(longer[i] == tasks[i]);
        } else {
            assert(longer.take(i) == tasks);
        }
    }
    assert forall|name: Seq<char>| is_named(tasks, name) implies is_named(longer, name) by {
        let i = choose|i: int| 0 <= i < tasks.len() && (#[trigger] tasks[i]).name == name;
        assert(longer[i].name == name);
    }
    assert(longer[tasks.len() as int].name == task.name);
}

/// Every task passes a test.
pub open spec fn all_tasks_pass(
    tasks: Seq<TaskModel>,
    test: spec_fn(TaskModel) -> bool,
) -> bool {
    forall|i: int| 0 <= i < tasks.len() ==> test(#[trigger] tasks[i])
}

/// Where the tasks of two lists pass a test, those of both together do.
pub proof fn lemma_both_pass(
    first: Seq<TaskModel>,
    second: Seq<TaskModel>,
    test: spec_fn(TaskModel) -> bool,
)
    requires
        all_tasks_pass(first, test),
        all_tasks_pass(second, test),
    ensures
        all_tasks_pass(first + second, test),
{
    let both = first + second;
    assert forall|i: int| 0 <= i < both.len() implies test(#[trigger] both[i]) by {
        if i < first.len() {
            assert(both[i] == first[i]);
        } else {
            assert(both[i] == second[i - first.len()]);
        }
    }
}

/// Every output of a task passes a test.
pub open spec fn outputs_pass(task: TaskModel, test: spec_fn(Seq<char>) -> bool) -> bool {
    forall|k: int| 0 <= k < task.outputs.len() ==> test(#[trigger] task.outputs[k])
}

/// Every output of the tasks passes a test.
pub open spec fn all_outputs_pass(
    tasks: Seq<TaskModel>,
    test: spec_fn(Seq<char>) -> bool,
) -> bool {
    forall|i: int| 0 <= i < tasks.len() ==> outputs_pass(#[trigger] tasks[i], test)
}

/// Where the outputs of two lists of tasks pass a test, those of both together
/// do.
pub proof fn lemma_both_outputs_pass(
    first: Seq<TaskModel>,
    second: Seq<TaskModel>,
    test: spec_fn(Seq<char>) -> bool,
)
    requires
        all_outputs_pass(first, test),
        all_outputs_pass(second, test),
    ensures
        all_outputs_pass(first + second, test),
{
    let both = first + second;
    assert forall|i: int| 0 <= i < both.len() implies outputs_pass(#[trigger] both[i], test) by {
        if i < first.len() {
            assert(both[i] == first[i]);
        } else {
            assert(both[i] == second[i - first.len()]);
        }
    }
}

/// Every file a task reads or writes passes a test.
pub open spec fn files_pass(task: TaskModel, test: spec_fn(Seq<char>) -> bool) -> bool {
    &&& forall|k: int| 0 <= k < task.inputs.len() ==> test(#[trigger] task.inputs[k])
    &&& outputs_pass(task, test)
}

/// Every file the tasks read or write passes a test.
pub open spec fn all_files_pass(tasks: Seq<TaskModel>, test: spec_fn(Seq<char>) -> bool) -> bool {
    forall|i: int| 0 <= i < tasks.len() ==> files_pass(#[trigger] tasks[i], test)
}

/// Adding a task whose files pass keeps all files passing.
pub proof fn lemma_add_files(
    tasks: Seq<TaskModel>,
    task: TaskModel,
    test: spec_fn(Seq<char>) -> bool,
)
    requires
        all_files_pass(tasks, test),
        files_pass(task, test),
    ensures
        all_files_pass(tasks.push(task), test),
{
    let longer = tasks.push(task);
    assert forall|i: int| 0 <= i < longer.len() implies files_pass(#[trigger] longer[i], test) by {
        if i < tasks.len() {
            assert(longer[i] == tasks[i]);
        }
    }
}

/// Some task reads a file, and the task called `next` waits for it: a change of
/// the file reaches that task.
pub open spec fn is_built_into(tasks: Seq<TaskModel>, file: Seq<char>, next: Seq<char>) -> bool {
    exists|i: int, j: int|
        {
            &&& 0 <= i < tasks.len()
            &&& 0 <= j < tasks.len()
            &&& (#[trigger] tasks[i]).inputs.contains(file)
            &&& (#[trigger] tasks[j]).name == next
            &&& tasks[j].depends_on.contains(tasks[i].name)
        }
}

/// A file that is built into a task stays so when tasks are added around.
pub proof fn lemma_built_into_a_longer_list(
    front: Seq<TaskModel>,
    tasks: Seq<TaskModel>,
    more: Seq<TaskModel>,
    file: Seq<char>,
    next: Seq<char>,
)
    requires
        is_built_into(tasks, file, next),
    ensures
        is_built_into(front + tasks + more, file, next),
{
    let (i, j) = choose|i: int, j: int|
        {
            &&& 0 <= i < tasks.len()
            &&& 0 <= j < tasks.len()
            &&& (#[trigger] tasks[i]).inputs.contains(file)
            &&& (#[trigger] tasks[j]).name == next
            &&& tasks[j].depends_on.contains(tasks[i].name)
        };
    let longer = front + tasks + more;
    assert(longer[front.len() + i] == tasks[i]);
    assert(longer[front.len() + j] == tasks[j]);
}

/// Adds a task to a list.
pub fn push_task(tasks: &mut Vec<Task>, task: Task)
    ensures
        task_models(final(tasks)@) == task_models(old(tasks)@).push(task@),
{
    let ghost earlier = tasks@;
    tasks.push(task);
    assert(task_models(tasks@) =~= task_models(earlier).push(task@));
}

/// Adds the tasks of one list to another.
pub fn append_tasks(tasks: &mut Vec<Task>, more: Vec<Task>)
    ensures
        task_models(final(tasks)@) == task_models(old(tasks)@) + task_models(more@),
{
    let ghost earlier = tasks@;
    let ghost added = more@;
    let mut rest = more;
    tasks.append(&mut rest);
    assert(task_models(tasks@) =~= task_models(earlier) + task_models(added));
}

/// An empty list of tasks.
pub fn no_tasks() -> (r: Vec<Task>)
    ensures
        task_models(r@) == Seq::<TaskModel>::empty(),
{
    let r: Vec<Task> = Vec::new();
    assert(task_models(r@) =~= Seq::<TaskModel>::empty());
    r
}

/// One run-tool task, run in the host's working directory.
pub fn run_tool_task(
    name: &str,
    inputs: Vec<String>,
    outputs: Vec<String>,
    depends_on: Vec<String>,
    tool: AllowlistedTool,
    args: Vec<String>,
) -> (r: Task)
    ensures
        r@ == tool_task(
            name@,
            texts(inputs@),
            texts(outputs@),
            texts(depends_on@),
            tool,
            texts(args@),
        ),
{
    Task {
        name: name.to_owned(),
        inputs,
        outputs,
        depends_on,
        action: Action::RunTool(RunToolArgs { tool, args, cwd: ".".to_owned() }),
    }
}

/// One write-file task, whose only output is the file.
pub fn write_file_task(
    name: &str,
    path: &str,
    contents: &str,
    depends_on: Vec<String>,
) -> (r: Task)
    ensures
        r@ == file_task(name@, path@, contents@, texts(depends_on@)),
{
    Task {
        name: name.to_owned(),
        inputs: no_texts(),
        outputs: one_text(path),
        depends_on,
        action: Action::WriteFile(
            WriteFileArgs { path: path.to_owned(), contents: contents.to_owned() },
        ),
    }
}

/// A plan that registers nothing and ends in an error.
pub fn refuse(reason: String) -> (r: Plan)
    ensures
        r@ == refused(reason@),
{
    Plan { tasks: no_tasks(), outcome: Err(reason) }
}

/// A plan that registers the given tasks and succeeds.
pub fn plan_of(tasks: Vec<Task>) -> (r: Plan)
    ensures
        r@ == planned(task_models(tasks@)),
{
    Plan { tasks, outcome: Ok(()) }
}

/// The plan that registers `tasks` and goes on with `rest`.
pub fn precede(tasks: Vec<Task>, rest: Plan) -> (r: Plan)
    ensures
        r@ == preceded(task_models(tasks@), rest@),
{
    let mut all = tasks;
    append_tasks(&mut all, rest.tasks);
    Plan { tasks: all, outcome: rest.outcome }
}

} // verus!
