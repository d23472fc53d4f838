//! The command protocol of a light, resolved from its configuration.

use crate::config::{
    BasicLightCommandConfig, CompositeItemConfig, CompositeStepConfig, LightCommandConfig,
};
use crate::light::command_text::{
    command_bytes, read_command, reads_whole_characters, splits_command,
};
use crate::text::copy_bytes;
use vstd::hash_map::StringHashMap;
use vstd::prelude::*;

verus! {

/// What a light is asked to show.
#[derive(Debug, Clone, Copy, PartialEq, Eq, Structural)]
pub enum LightStatus {
    Red,
    Green,
    RedFlash,
}

/// The commands to send for each status, and the time limit of one transmission.
pub struct LightProtocol {
    pub red: Vec<Vec<u8>>,
    pub green: Vec<Vec<u8>>,
    pub red_flash: Vec<RuntimeStep>,
    pub io_timeout_ms: u64,
}

/// One command, or a block of commands that is repeated.
pub enum RuntimeStep {
    Command(Vec<u8>),
    Repeat { repeat: usize, steps: Vec<RuntimeRepeatStep> },
}

/// One command of a repeated block, with the pause after it.
pub struct RuntimeRepeatStep {
    pub command: Vec<u8>,
    pub delay_ms: Option<u64>,
}

/// Why a command configuration cannot be used.
#[derive(Debug)]
pub enum LightProtocolError {
    InvalidCommand(String),
    UnknownCommand(String),
}

/// A [`LightProtocol`] as plain values.
#[verifier::ext_equal]
pub struct ProtocolView {
    pub red: Seq<Seq<u8>>,
    pub green: Seq<Seq<u8>>,
    pub red_flash: Seq<StepView>,
    pub io_timeout_ms: u64,
}

/// A [`RuntimeStep`] as plain values.
#[verifier::ext_equal]
pub enum StepView {
    Command(Seq<u8>),
    Repeat { repeat: nat, steps: Seq<RepeatStepView> },
}

/// A [`RuntimeRepeatStep`] as plain values.
#[verifier::ext_equal]
pub struct RepeatStepView {
    pub command: Seq<u8>,
    pub delay_ms: Option<u64>,
}

/// A [`LightProtocolError`] as plain values.
#[verifier::ext_equal]
pub enum ProtocolErrorView {
    InvalidCommand(Seq<char>),
    UnknownCommand(Seq<char>),
}

impl View for RuntimeRepeatStep {
    type V = RepeatStepView;

    open spec fn view(&self) -> RepeatStepView {
        RepeatStepView { command: self.command@, delay_ms: self.delay_ms }
    }
}

/// The steps of a repeated block as plain values.
pub open spec fn repeat_step_views(steps: Seq<RuntimeRepeatStep>) -> Seq<RepeatStepView> {
    steps.map_values(|step: RuntimeRepeatStep| step@)
}

impl View for RuntimeStep {
    type V = StepView;

    open spec fn view(&self) -> StepView {
        match self {
            RuntimeStep::Command(command) => StepView::Command(command@),
            RuntimeStep::Repeat { repeat, steps } => StepView::Repeat {
                repeat: *repeat as nat,
                steps: repeat_step_views(steps@),
            },
        }
    }
}

/// The steps as plain values.
pub open spec fn step_views(steps: Seq<RuntimeStep>) -> Seq<StepView> {
    steps.map_values(|step: RuntimeStep| step@)
}

/// The bytes of each command.
pub open spec fn command_views(commands: Seq<Vec<u8>>) -> Seq<Seq<u8>> {
    commands.map_values(|command: Vec<u8>| command@)
}

impl View for LightProtocol {
    type V = ProtocolView;

    open spec fn view(&self) -> ProtocolView {
        ProtocolView {
            red: command_views(self.red@),
            green: command_views(self.green@),
            red_flash: step_views(self.red_flash@),
            io_timeout_ms: self.io_timeout_ms,
        }
    }
}

impl View for LightProtocolError {
    type V = ProtocolErrorView;

    open spec fn view(&self) -> ProtocolErrorView {
        match self {
            LightProtocolError::InvalidCommand(text) => ProtocolErrorView::InvalidCommand(text@),
            LightProtocolError::UnknownCommand(text) => ProtocolErrorView::UnknownCommand(text@),
        }
    }
}

impl LightProtocolError {
    /// The error as a message.
    pub open spec fn message(self) -> Seq<char> {
        match self {
            LightProtocolError::InvalidCommand(command) => "invalid light command config: "@
                + command@,
            LightProtocolError::UnknownCommand(name) => "unknown light command name: "@ + name@,
        }
    }

    /// Renders the error as a message.
    pub fn to_string(&self) -> (text: String)
        ensures
            text@ == self.message(),
    {
        match self {
            LightProtocolError::InvalidCommand(command) => {
                "invalid light command config: ".to_string().concat(command.as_str())
            },
            LightProtocolError::UnknownCommand(name) => {
                "unknown light command name: ".to_string().concat(name.as_str())
            },
        }
    }
}

impl Clone for RuntimeRepeatStep {
    fn clone(&self) -> (copy: Self)
        ensures
            copy@ == self@,
    {
        RuntimeRepeatStep { command: copy_bytes(&self.command), delay_ms: self.delay_ms }
    }
}

fn copy_repeat_steps(steps: &Vec<RuntimeRepeatStep>) -> (copy: Vec<RuntimeRepeatStep>)
    ensures
        repeat_step_views(copy@) == repeat_step_views(steps@),
{
    let mut copy: Vec<RuntimeRepeatStep> = Vec::new();
    let mut i: usize = 0;
    while i < steps.len()
        invariant
            i <= steps.len(),
            copy.len() == i,
            forall|j: int| 0 <= j < i ==> (#[trigger] copy@[j])@ == steps@[j]@,
        decreases steps.len() - i,
    {
        copy.push(steps[i].clone());
        i += 1;
    }
    assert(repeat_step_views(copy@) =~= repeat_step_views(steps@));
    copy
}

impl Clone for RuntimeStep {
    fn clone(&self) -> (copy: Self)
        ensures
            copy@ == self@,
    {
        match self {
            RuntimeStep::Command(command) => RuntimeStep::Command(copy_bytes(command)),
            RuntimeStep::Repeat { repeat, steps } => RuntimeStep::Repeat {
                repeat: *repeat,
                steps: copy_repeat_steps(steps),
            },
        }
    }
}

/// A copy of `steps`.
pub(crate) fn copy_steps(steps: &Vec<RuntimeStep>) -> (copy: Vec<RuntimeStep>)
    ensures
        step_views(copy@) == step_views(steps@),
{
    let mut copy: Vec<RuntimeStep> = Vec::new();
    let mut i: usize = 0;
    while i < steps.len()
        invariant
            i <= steps.len(),
            copy.len() == i,
            forall|j: int| 0 <= j < i ==> (#[trigger] copy@[j])@ == steps@[j]@,
        decreases steps.len() - i,
    {
        copy.push(steps[i].clone());
        i += 1;
    }
    assert(step_views(copy@) =~= step_views(steps@));
    copy
}

/// Reads the text of one command.
///
/// The text must not make the reader split a character; [`reads_whole_characters`] tells.
pub fn parse_command(command: &str) -> (result: Result<Vec<u8>, LightProtocolError>)
    requires
        !splits_command(command@),
    ensures
        match result {
            Ok(bytes) => command_bytes(command@) == Some(bytes@),
            Err(error) => command_bytes(command@) is None
                && error@ == ProtocolErrorView::InvalidCommand(command@),
        },
{
    match read_command(command) {
        Some(bytes) => Ok(bytes),
        None => Err(LightProtocolError::InvalidCommand(command.to_string())),
    }
}

/// The bytes of the basic commands by name.
pub open spec fn table_view(table: Map<Seq<char>, Vec<u8>>) -> Map<Seq<char>, Seq<u8>> {
    table.map_values(|command: Vec<u8>| command@)
}

/// The bytes of the basic commands by name, or the first text that is no command.
pub open spec fn basic_table(config: BasicLightCommandConfig) -> Result<
    Map<Seq<char>, Seq<u8>>,
    ProtocolErrorView,
> {
    match command_bytes(config.green_light_off@) {
        None => Err(ProtocolErrorView::InvalidCommand(config.green_light_off@)),
        Some(green_off) => match command_bytes(config.green_light_on@) {
            None => Err(ProtocolErrorView::InvalidCommand(config.green_light_on@)),
            Some(green_on) => match command_bytes(config.red_light_on@) {
                None => Err(ProtocolErrorView::InvalidCommand(config.red_light_on@)),
                Some(red_on) => match command_bytes(config.red_light_off@) {
                    None => Err(ProtocolErrorView::InvalidCommand(config.red_light_off@)),
                    Some(red_off) => Ok(
                        Map::empty().insert("green_light_off"@, green_off).insert(
                            "green_light_on"@,
                            green_on,
                        ).insert("red_light_on"@, red_on).insert("red_light_off"@, red_off),
                    ),
                },
            },
        },
    }
}

/// Whether the basic commands, read in order up to the first that is no command, can be read
/// without splitting a character.
pub open spec fn basic_reads_whole(config: BasicLightCommandConfig) -> bool {
    &&& !splits_command(config.green_light_off@)
    &&& command_bytes(config.green_light_off@) is Some ==> {
        &&& !splits_command(config.green_light_on@)
        &&& command_bytes(config.green_light_on@) is Some ==> {
            &&& !splits_command(config.red_light_on@)
            &&& command_bytes(config.red_light_on@) is Some ==> !splits_command(
                config.red_light_off@,
            )
        }
    }
}

/// Tells whether the basic commands can be read without splitting a character.
pub fn basic_commands_readable(config: &BasicLightCommandConfig) -> (readable: bool)
    ensures
        readable == basic_reads_whole(*config),
{
    if !reads_whole_characters(config.green_light_off.as_str()) {
        return false;
    }
    if read_command(config.green_light_off.as_str()).is_none() {
        return true;
    }
    if !reads_whole_characters(config.green_light_on.as_str()) {
        return false;
    }
    if read_command(config.green_light_on.as_str()).is_none() {
        return true;
    }
    if !reads_whole_characters(config.red_light_on.as_str()) {
        return false;
    }
    if read_command(config.red_light_on.as_str()).is_none() {
        return true;
    }
    reads_whole_characters(config.red_light_off.as_str())
}

/// Reads the four basic commands and names them.
pub fn parse_basic_commands(config: &BasicLightCommandConfig) -> (result: Result<
    StringHashMap<Vec<u8>>,
    LightProtocolError,
>)
    requires
        basic_reads_whole(*config),
    ensures
        match result {
            Ok(table) => basic_table(*config) == Ok::<_, ProtocolErrorView>(table_view(table@)),
            Err(error) => basic_table(*config) == Err::<Map<Seq<char>, Seq<u8>>, _>(error@),
        },
{
    let mut commands: StringHashMap<Vec<u8>> = StringHashMap::new();
    commands.insert(
        "green_light_off".to_string(),
        parse_command(config.green_light_off.as_str())?,
    );
    commands.insert("green_light_on".to_string(), parse_command(config.green_light_on.as_str())?);
    commands.insert("red_light_on".to_string(), parse_command(config.red_light_on.as_str())?);
    commands.insert("red_light_off".to_string(), parse_command(config.red_light_off.as_str())?);
    assert(table_view(commands@) =~= basic_table(*config)->Ok_0);
    Ok(commands)
}

/// `resolve` applied to each item in order: all results, or the first error.
pub open spec fn collect<A, B>(
    items: Seq<A>,
    resolve: spec_fn(A) -> Result<B, ProtocolErrorView>,
) -> Result<Seq<B>, ProtocolErrorView>
    decreases items.len(),
{
    if items.len() == 0 {
        Ok(Seq::empty())
    } else {
        match collect(items.drop_last(), resolve) {
            Err(error) => Err(error),
            Ok(resolved) => match resolve(items.last()) {
                Err(error) => Err(error),
                Ok(value) => Ok(resolved.push(value)),
            },
        }
    }
}

proof fn lemma_collect_step<A, B>(
    items: Seq<A>,
    resolve: spec_fn(A) -> Result<B, ProtocolErrorView>,
    i: int,
)
    requires
        0 <= i < items.len(),
        collect(items.take(i), resolve) is Ok,
    ensures
        match resolve(items[i]) {
            Ok(value) => collect(items.take(i + 1), resolve) == Ok::<_, ProtocolErrorView>(
                collect(items.take(i), resolve)->Ok_0.push(value),
            ),
            Err(error) => collect(items, resolve) == Err::<Seq<B>, _>(error),
        },
{
    let next = items.take(i + 1);
    assert(next.drop_last() =~= items.take(i));
    if resolve(items[i]) is Err {
        lemma_collect_error(items, resolve, i + 1);
    }
}

proof fn lemma_collect_error<A, B>(
    items: Seq<A>,
    resolve: spec_fn(A) -> Result<B, ProtocolErrorView>,
    n: int,
)
    requires
        0 <= n <= items.len(),
        collect(items.take(n), resolve) is Err,
    ensures
        collect(items, resolve) == collect(items.take(n), resolve),
    decreases items.len(),
{
    if n == items.len() {
        assert(items.take(n) =~= items);
    } else {
        assert(items.drop_last().take(n) =~= items.take(n));
        lemma_collect_error(items.drop_last(), resolve, n);
    }
}

/// What was collected is what each item resolves to.
pub(crate) proof fn lemma_collect_items<A, B>(
    items: Seq<A>,
    resolve: spec_fn(A) -> Result<B, ProtocolErrorView>,
)
    requires
        collect(items, resolve) is Ok,
    ensures
        collect(items, resolve)->Ok_0.len() == items.len(),
        forall|i: int|
            0 <= i < items.len() ==> resolve(#[trigger] items[i]) == Ok::<_, ProtocolErrorView>(
                collect(items, resolve)->Ok_0[i],
            ),
    decreases items.len(),
{
    if items.len() > 0 {
        let before = items.drop_last();
        lemma_collect_items(before, resolve);
        assert forall|i: int| 0 <= i < items.len() implies resolve(#[trigger] items[i]) == Ok::<
            _,
            ProtocolErrorView,
        >(collect(items, resolve)->Ok_0[i]) by {
            if i < before.len() {
                assert(before[i] == items[i]);
            }
        }
    }
}

/// The basic command called `name`.
pub open spec fn named_command(table: Map<Seq<char>, Seq<u8>>, name: Seq<char>) -> Result<
    Seq<u8>,
    ProtocolErrorView,
> {
    if table.contains_key(name) {
        Ok(table[name])
    } else {
        Err(ProtocolErrorView::UnknownCommand(name))
    }
}

/// How an item of a simple sequence is resolved: it names a basic command.
pub open spec fn sequence_item(table: Map<Seq<char>, Seq<u8>>) -> spec_fn(
    CompositeItemConfig,
) -> Result<Seq<u8>, ProtocolErrorView> {
    |item: CompositeItemConfig|
        match item {
            CompositeItemConfig::Command { command } => named_command(table, command@),
            CompositeItemConfig::Repeat { .. } => Err(
                ProtocolErrorView::InvalidCommand(
                    "repeat blocks are not allowed in simple sequences"@,
                ),
            ),
        }
}

/// How a step of a repeated block is resolved.
pub open spec fn repeat_item(table: Map<Seq<char>, Seq<u8>>) -> spec_fn(
    CompositeStepConfig,
) -> Result<RepeatStepView, ProtocolErrorView> {
    |step: CompositeStepConfig|
        match named_command(table, step.command@) {
            Ok(command) => Ok(RepeatStepView { command, delay_ms: step.delay_ms }),
            Err(error) => Err(error),
        }
}

/// How an item of a sequence with repeated blocks is resolved.
pub open spec fn step_item(table: Map<Seq<char>, Seq<u8>>) -> spec_fn(
    CompositeItemConfig,
) -> Result<StepView, ProtocolErrorView> {
    |item: CompositeItemConfig|
        match item {
            CompositeItemConfig::Command { command } => match named_command(table, command@) {
                Ok(command) => Ok(StepView::Command(command)),
                Err(error) => Err(error),
            },
            CompositeItemConfig::Repeat { repeat, steps } => match collect(
                steps@,
                repeat_item(table),
            ) {
                Ok(steps) => Ok(StepView::Repeat { repeat: repeat as nat, steps }),
                Err(error) => Err(error),
            },
        }
}

/// Finds a basic command by its name.
pub fn resolve_command(command_name: &str, basic_commands: &StringHashMap<Vec<u8>>) -> (result:
    Result<Vec<u8>, LightProtocolError>)
    ensures
        match result {
            Ok(command) => named_command(table_view(basic_commands@), command_name@) == Ok::<
                _,
                ProtocolErrorView,
            >(command@),
            Err(error) => named_command(table_view(basic_commands@), command_name@) == Err::<
                Seq<u8>,
                _,
            >(error@),
        },
{
    match basic_commands.get(command_name) {
        Some(command) => Ok(copy_bytes(command)),
        None => Err(LightProtocolError::UnknownCommand(command_name.to_string())),
    }
}

/// Resolves a sequence of names, without repeated blocks, to the commands.
pub fn resolve_sequence(
    command_names: &Vec<CompositeItemConfig>,
    basic_commands: &StringHashMap<Vec<u8>>,
) -> (result: Result<Vec<Vec<u8>>, LightProtocolError>)
    ensures
        match result {
            Ok(commands) => collect(
                command_names@,
                sequence_item(table_view(basic_commands@)),
            ) == Ok::<_, ProtocolErrorView>(command_views(commands@)),
            Err(error) => collect(
                command_names@,
                sequence_item(table_view(basic_commands@)),
            ) == Err::<Seq<Seq<u8>>, _>(error@),
        },
{
    let ghost resolve = sequence_item(table_view(basic_commands@));
    let mut commands: Vec<Vec<u8>> = Vec::new();
    let mut i: usize = 0;
    assert(command_names@.take(0) =~= Seq::<CompositeItemConfig>::empty());
    assert(command_views(commands@) =~= Seq::<Seq<u8>>::empty());
    while i < command_names.len()
        invariant
            i <= command_names.len(),
            resolve == sequence_item(table_view(basic_commands@)),
            collect(command_names@.take(i as int), resolve) == Ok::<_, ProtocolErrorView>(
                command_views(commands@),
            ),
        decreases command_names.len() - i,
    {
        let ghost before = command_views(commands@);
        proof {
            lemma_collect_step(command_names@, resolve, i as int);
        }
        match &command_names[i] {
            CompositeItemConfig::Command { command } => {
                match resolve_command(command.as_str(), basic_commands) {
                    Ok(bytes) => {
                        let ghost view = bytes@;
                        commands.push(bytes);
                        assert(command_views(commands@) =~= before.push(view));
                    },
                    Err(error) => {
                        return Err(error);
                    },
                }
            },
            CompositeItemConfig::Repeat { .. } => {
                return Err(
                    LightProtocolError::InvalidCommand(
                        "repeat blocks are not allowed in simple sequences".to_string(),
                    ),
                );
            },
        }
        i += 1;
    }
    assert(command_names@.take(command_names@.len() as int) =~= command_names@);
    Ok(commands)
}

fn resolve_repeat_steps(
    steps: &Vec<CompositeStepConfig>,
    basic_commands: &StringHashMap<Vec<u8>>,
) -> (result: Result<Vec<RuntimeRepeatStep>, LightProtocolError>)
    ensures
        match result {
            Ok(resolved) => collect(steps@, repeat_item(table_view(basic_commands@))) == Ok::<
                _,
                ProtocolErrorView,
            >(repeat_step_views(resolved@)),
            Err(error) => collect(steps@, repeat_item(table_view(basic_commands@))) == Err::<
                Seq<RepeatStepView>,
                _,
            >(error@),
        },
{
    let ghost resolve = repeat_item(table_view(basic_commands@));
    let mut resolved: Vec<RuntimeRepeatStep> = Vec::new();
    let mut i: usize = 0;
    assert(steps@.take(0) =~= Seq::<CompositeStepConfig>::empty());
    assert(repeat_step_views(resolved@) =~= Seq::<RepeatStepView>::empty());
    while i < steps.len()
        invariant
            i <= steps.len(),
            resolve == repeat_item(table_view(basic_commands@)),
            collect(steps@.take(i as int), resolve) == Ok::<_, ProtocolErrorView>(
                repeat_step_views(resolved@),
            ),
        decreases steps.len() - i,
    {
        let ghost before = repeat_step_views(resolved@);
        proof {
            lemma_collect_step(steps@, resolve, i as int);
        }
        match resolve_command(steps[i].command.as_str(), basic_commands) {
            Ok(command) => {
                let step = RuntimeRepeatStep { command, delay_ms: steps[i].delay_ms };
                let ghost view = step@;
                resolved.push(step);
                assert(repeat_step_views(resolved@) =~= before.push(view));
            },
            Err(error) => {
                return Err(error);
            },
        }
        i += 1;
    }
    assert(steps@.take(steps@.len() as int) =~= steps@);
    Ok(resolved)
}

/// Resolves a sequence of names and repeated blocks.
pub fn resolve_runtime_steps(
    steps: &Vec<CompositeItemConfig>,
    basic_commands: &StringHashMap<Vec<u8>>,
) -> (result: Result<Vec<RuntimeStep>, LightProtocolError>)
    ensures
        match result {
            Ok(resolved) => collect(steps@, step_item(table_view(basic_commands@))) == Ok::<
                _,
                ProtocolErrorView,
            >(step_views(resolved@)),
            Err(error) => collect(steps@, step_item(table_view(basic_commands@))) == Err::<
                Seq<StepView>,
                _,
            >(error@),
        },
{
    let ghost resolve = step_item(table_view(basic_commands@));
    let mut resolved: Vec<RuntimeStep> = Vec::new();
    let mut i: usize = 0;
    assert(steps@.take(0) =~= Seq::<CompositeItemConfig>::empty());
    assert(step_views(resolved@) =~= Seq::<StepView>::empty());
    while i < steps.len()
        invariant
            i <= steps.len(),
            resolve == step_item(table_view(basic_commands@)),
            collect(steps@.take(i as int), resolve) == Ok::<_, ProtocolErrorView>(
                step_views(resolved@),
            ),
        decreases steps.len() - i,
    {
        let ghost before = step_views(resolved@);
        proof {
            lemma_collect_step(steps@, resolve, i as int);
        }
        let step = match &steps[i] {
            CompositeItemConfig::Command { command } => {
                match resolve_command(command.as_str(), basic_commands) {
                    Ok(bytes) => RuntimeStep::Command(bytes),
                    Err(error) => {
                        return Err(error);
                    },
                }
            },
            CompositeItemConfig::Repeat { repeat, steps } => {
                match resolve_repeat_steps(steps, basic_commands) {
                    Ok(block) => RuntimeStep::Repeat { repeat: *repeat, steps: block },
                    Err(error) => {
                        return Err(error);
                    },
                }
            },
        };
        let ghost view = step@;
        resolved.push(step);
        assert(step_views(resolved@) =~= before.push(view));
        i += 1;
    }
    assert(steps@.take(steps@.len() as int) =~= steps@);
    Ok(resolved)
}

/// The protocol that a command configuration describes, or the first error in it: basic commands
/// first, then red, green and red flash.
pub open spec fn protocol_of(config: LightCommandConfig) -> Result<
    ProtocolView,
    ProtocolErrorView,
> {
    match basic_table(config.basic) {
        Err(error) => Err(error),
        Ok(table) => match collect(config.composite.red@, sequence_item(table)) {
            Err(error) => Err(error),
            Ok(red) => match collect(config.composite.green@, sequence_item(table)) {
                Err(error) => Err(error),
                Ok(green) => match collect(config.composite.red_flash@, step_item(table)) {
                    Err(error) => Err(error),
                    Ok(red_flash) => Ok(
                        ProtocolView {
                            red,
                            green,
                            red_flash,
                            io_timeout_ms: config.timing.io_timeout_ms,
                        },
                    ),
                },
            },
        },
    }
}

impl LightProtocol {
    /// Resolves the protocol from its configuration.
    ///
    /// The basic commands must not make the reader split a character;
    /// [`basic_commands_readable`] tells.
    pub fn from_config(config: &LightCommandConfig) -> (result: Result<Self, LightProtocolError>)
        requires
            basic_reads_whole(config.basic),
        ensures
            match result {
                Ok(protocol) => protocol_of(*config) == Ok::<_, ProtocolErrorView>(protocol@),
                Err(error) => protocol_of(*config) == Err::<ProtocolView, _>(error@),
            },
    {
        let basic_commands = parse_basic_commands(&config.basic)?;
        Ok(
            LightProtocol {
                red: resolve_sequence(&config.composite.red, &basic_commands)?,
                green: resolve_sequence(&config.composite.green, &basic_commands)?,
                red_flash: resolve_runtime_steps(&config.composite.red_flash, &basic_commands)?,
                io_timeout_ms: config.timing.io_timeout_ms,
            },
        )
    }
}

} // verus!
