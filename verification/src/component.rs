//! What the input and output components say about themselves, and the input
//! component's control loop.
use vstd::prelude::*;

verus! {

/// The number of worker threads the input component runs with: at least one.
pub fn worker_threads(requested: usize) -> (n: usize)
    ensures
        n == if requested == 0 { 1 } else { requested },
{
    if requested == 0 {
        1
    } else {
        requested
    }
}

/// What the input component's control loop observed on its own channel.
pub enum InputEvent {
    StopCommand,
    OtherMessage,
    Empty,
    Disconnected,
}

/// What the input component's control loop does next.
#[derive(PartialEq, Eq, Structural)]
pub enum InputAction {
    /// Yield, sleep ten milliseconds, and poll again.
    Wait,
    /// Stop listening and return.
    Stop,
}

/// The input component's control loop: it stops on a stop command or when its
/// channel is gone, and keeps listening otherwise.
pub fn input_step(event: &InputEvent) -> (a: InputAction)
    ensures
        a == match event {
            InputEvent::StopCommand | InputEvent::Disconnected => InputAction::Stop,
            _ => InputAction::Wait,
        },
{
    match event {
        InputEvent::StopCommand => InputAction::Stop,
        InputEvent::Disconnected => InputAction::Stop,
        _ => InputAction::Wait,
    }
}

/// The commands a component offers.
#[derive(PartialEq, Eq, Structural)]
pub enum CommandKind {
    StopComponent,
    StartComponent,
}

/// Who may run a command.
#[derive(PartialEq, Eq, Structural)]
pub enum Role {
    Administrator,
}

/// A command a component offers, with its name and description.
pub struct CommandSpec {
    pub kind: CommandKind,
    pub name: String,
    pub description: String,
    pub role: Role,
}

/// What a component offers: its name, description, view and commands. It
/// offers no datasets and no tasks.
pub struct Capabilities {
    pub name: String,
    pub description: String,
    pub view: String,
    pub commands: Vec<CommandSpec>,
}

fn command(kind: CommandKind, name: &str, description: &str) -> (c: CommandSpec)
    ensures
        c.kind == kind,
        c.name@ == name@,
        c.description@ == description@,
        c.role == Role::Administrator,
{
    CommandSpec {
        kind,
        name: String::from_str(name),
        description: String::from_str(description),
        role: Role::Administrator,
    }
}

/// The capabilities a component of the given `name` and stop/start command
/// names declares.
pub open spec fn declares(
    c: Capabilities,
    name: Seq<char>,
    stop_name: Seq<char>,
    start_name: Seq<char>,
) -> bool {
    &&& c.name@ == name
    &&& c.description@ == "Send logs to elasticsearch"@
    &&& c.view@ == ""@
    &&& c.commands@.len() == 2
    &&& c.commands@[0].kind == CommandKind::StopComponent
    &&& c.commands@[0].name@ == stop_name
    &&& c.commands@[0].description@
        == "This allows stopping all ElasticSearch components.\nUse only when really needed, like mantaining ElasticSearch."@
    &&& c.commands@[0].role == Role::Administrator
    &&& c.commands@[1].kind == CommandKind::StartComponent
    &&& c.commands@[1].name@ == start_name
    &&& c.commands@[1].description@ == "This allows sending logs to ElasticSearch."@
    &&& c.commands@[1].role == Role::Administrator
}

fn describe_component(name: &str, stop_name: &str, start_name: &str) -> (c: Capabilities)
    ensures
        declares(c, name@, stop_name@, start_name@),
{
    let mut commands: Vec<CommandSpec> = Vec::new();
    commands.push(
        command(
            CommandKind::StopComponent,
            stop_name,
            "This allows stopping all ElasticSearch components.\nUse only when really needed, like mantaining ElasticSearch.",
        ),
    );
    commands.push(
        command(CommandKind::StartComponent, start_name, "This allows sending logs to ElasticSearch."),
    );
    Capabilities {
        name: String::from_str(name),
        description: String::from_str("Send logs to elasticsearch"),
        view: String::from_str(""),
        commands,
    }
}

/// The capabilities of the input component.
pub fn input_capabilities() -> (c: Capabilities)
    ensures
        declares(c, "ElasticSearchInput"@, "Stop ElasticSearch Input"@, "Start ElasticSearch Input"@),
{
    describe_component("ElasticSearchInput", "Stop ElasticSearch Input", "Start ElasticSearch Input")
}

/// The capabilities of the output component.
pub fn output_capabilities() -> (c: Capabilities)
    ensures
        declares(
            c,
            "ElasticSearchOutput"@,
            "Stop ElasticSearch Output"@,
            "Start ElasticSearch Output"@,
        ),
{
    describe_component("ElasticSearchOutput", "Stop ElasticSearch Output", "Start ElasticSearch Output")
}

} // verus!
