//! What a command configuration resolves to.

use crate::config::{
    BasicLightCommandConfig, CompositeItemConfig, CompositeStepConfig, LightCommandConfig,
    LightConfig,
};
use crate::laws::commands::plain;
use crate::light::command_text::{
    command_bytes, law_ascii_is_read_whole, reads_whole_characters,
};
use crate::light::protocol::{
    basic_commands_readable, basic_reads_whole, basic_table, collect, command_views,
    lemma_collect_items, named_command, parse_basic_commands, protocol_of, repeat_item,
    repeat_step_views, resolve_command, sequence_item, step_item, step_views, table_view,
    LightProtocol, LightProtocolError, ProtocolErrorView, RuntimeRepeatStep, RuntimeStep,
};
use crate::light::runtime::LightService;
use vstd::hash_map::StringHashMap;
use vstd::prelude::*;

verus! {

/// What comes of resolving a configuration.
pub type Resolution = Result<LightProtocol, LightProtocolError>;

/// Whether `name` is that of one of the four texts of `basic`, and that text stands for `bytes`.
pub open spec fn names(basic: BasicLightCommandConfig, name: Seq<char>, bytes: Seq<u8>) -> bool {
    ||| name == "green_light_off"@ && command_bytes(basic.green_light_off@) == Some(bytes)
    ||| name == "green_light_on"@ && command_bytes(basic.green_light_on@) == Some(bytes)
    ||| name == "red_light_on"@ && command_bytes(basic.red_light_on@) == Some(bytes)
    ||| name == "red_light_off"@ && command_bytes(basic.red_light_off@) == Some(bytes)
}

/// Whether `name` is that of one of the four texts.
pub open spec fn is_name(name: Seq<char>) -> bool {
    ||| name == "green_light_off"@
    ||| name == "green_light_on"@
    ||| name == "red_light_on"@
    ||| name == "red_light_off"@
}

/// Whether all four texts are commands.
pub open spec fn all_commands(basic: BasicLightCommandConfig) -> bool {
    &&& command_bytes(basic.green_light_off@) is Some
    &&& command_bytes(basic.green_light_on@) is Some
    &&& command_bytes(basic.red_light_on@) is Some
    &&& command_bytes(basic.red_light_off@) is Some
}

/// Whether an item is one name that is known.
pub open spec fn is_known_command(item: CompositeItemConfig) -> bool {
    item matches CompositeItemConfig::Command { command } && is_name(command@)
}

/// Whether an item is one name that is known, or a block of such names.
pub open spec fn is_known_item(item: CompositeItemConfig) -> bool {
    match item {
        CompositeItemConfig::Command { command } => is_name(command@),
        CompositeItemConfig::Repeat { repeat, steps } => forall|j: int|
            0 <= j < steps@.len() ==> is_name(#[trigger] steps@[j].command@),
    }
}

/// Whether `step` is what `item` of a configuration with these texts stands for: the same
/// commands, each with its own pause, the same number of times.
pub open spec fn is_step_for(
    basic: BasicLightCommandConfig,
    item: CompositeItemConfig,
    step: RuntimeStep,
) -> bool {
    match item {
        CompositeItemConfig::Command { command } => step matches RuntimeStep::Command(bytes)
            && names(basic, command@, bytes@),
        CompositeItemConfig::Repeat { repeat, steps } => {
            &&& step matches RuntimeStep::Repeat { repeat: count, steps: block }
            &&& count == repeat
            &&& block@.len() == steps@.len()
            &&& forall|j: int|
                0 <= j < steps@.len() ==> {
                    &&& names(basic, (#[trigger] steps@[j]).command@, block@[j].command@)
                    &&& block@[j].delay_ms == steps@[j].delay_ms
                }
        },
    }
}

proof fn lemma_names_differ()
    ensures
        "green_light_off"@ != "green_light_on"@,
        "green_light_off"@ != "red_light_on"@,
        "green_light_off"@ != "red_light_off"@,
        "green_light_on"@ != "red_light_on"@,
        "green_light_on"@ != "red_light_off"@,
        "red_light_on"@ != "red_light_off"@,
{
    reveal_strlit("green_light_off");
    reveal_strlit("green_light_on");
    reveal_strlit("red_light_on");
    reveal_strlit("red_light_off");
    assert("green_light_off"@.len() == 15);
    assert("green_light_on"@.len() == 14);
    assert("red_light_on"@.len() == 12);
    assert("red_light_off"@.len() == 13);
}

proof fn lemma_named(basic: BasicLightCommandConfig, name: Seq<char>)
    requires
        basic_table(basic) is Ok,
    ensures
        all_commands(basic),
        named_command(basic_table(basic)->Ok_0, name) is Ok <==> is_name(name),
        named_command(basic_table(basic)->Ok_0, name) matches Ok(bytes) ==> names(
            basic,
            name,
            bytes,
        ),
        named_command(basic_table(basic)->Ok_0, name) matches Err(error) ==> error
            == ProtocolErrorView::UnknownCommand(name),
{
    lemma_names_differ();
}

/// Each name stands for the text of that name, and no other name stands for anything.
pub proof fn law_each_name_stands_for_its_text(
    basic: BasicLightCommandConfig,
    table: StringHashMap<Vec<u8>>,
    name: Seq<char>,
)
    requires
        call_ensures(
            parse_basic_commands,
            (&basic,),
            Ok::<StringHashMap<Vec<u8>>, LightProtocolError>(table),
        ),
    ensures
        table@.contains_key(name) <==> is_name(name),
        table@.contains_key(name) ==> names(basic, name, table@[name]@),
        command_bytes(basic.green_light_off@) == Some(table@["green_light_off"@]@),
        command_bytes(basic.green_light_on@) == Some(table@["green_light_on"@]@),
        command_bytes(basic.red_light_on@) == Some(table@["red_light_on"@]@),
        command_bytes(basic.red_light_off@) == Some(table@["red_light_off"@]@),
{
    lemma_names_differ();
    let view = table_view(table@);
    assert(basic_table(basic)->Ok_0 == view);
    assert(view.contains_key(name) == table@.contains_key(name));
    assert(view.contains_key("green_light_off"@));
    assert(view.contains_key("green_light_on"@));
    assert(view.contains_key("red_light_on"@));
    assert(view.contains_key("red_light_off"@));
    assert(view["green_light_off"@] == table@["green_light_off"@]@);
    assert(view["green_light_on"@] == table@["green_light_on"@]@);
    assert(view["red_light_on"@] == table@["red_light_on"@]@);
    assert(view["red_light_off"@] == table@["red_light_off"@]@);
    if table@.contains_key(name) {
        assert(view[name] == table@[name]@);
    }
}

/// Four commands are always accepted; else the first of the four texts that is no command, in the
/// order green off, green on, red on, red off, is the one reported.
pub proof fn law_first_bad_text_is_reported(
    basic: BasicLightCommandConfig,
    result: Result<StringHashMap<Vec<u8>>, LightProtocolError>,
)
    requires
        call_ensures(parse_basic_commands, (&basic,), result),
    ensures
        result is Ok <==> all_commands(basic),
        result matches Err(error) ==> {
            &&& error matches LightProtocolError::InvalidCommand(text)
            &&& if command_bytes(basic.green_light_off@) is None {
                text@ == basic.green_light_off@
            } else if command_bytes(basic.green_light_on@) is None {
                text@ == basic.green_light_on@
            } else if command_bytes(basic.red_light_on@) is None {
                text@ == basic.red_light_on@
            } else {
                text@ == basic.red_light_off@
            }
        },
{
}

/// A name is found in a table, or reported as unknown.
pub proof fn law_names_are_looked_up(
    name: &str,
    table: StringHashMap<Vec<u8>>,
    result: Result<Vec<u8>, LightProtocolError>,
)
    requires
        call_ensures(resolve_command, (name, &table), result),
    ensures
        table@.contains_key(name@) ==> result is Ok && result->Ok_0@ == table@[name@]@,
        !table@.contains_key(name@) ==> (result matches Err(error) && (error matches
            LightProtocolError::UnknownCommand(unknown) && unknown@ == name@)),
{
    assert(table_view(table@).contains_key(name@) == table@.contains_key(name@));
    if table@.contains_key(name@) {
        assert(table_view(table@)[name@] == table@[name@]@);
    }
}

proof fn lemma_repeat_item(
    basic: BasicLightCommandConfig,
    steps: Seq<CompositeStepConfig>,
    block: Seq<RuntimeRepeatStep>,
)
    requires
        basic_table(basic) is Ok,
        collect(steps, repeat_item(basic_table(basic)->Ok_0)) == Ok::<_, ProtocolErrorView>(
            repeat_step_views(block),
        ),
    ensures
        block.len() == steps.len(),
        forall|j: int|
            0 <= j < steps.len() ==> {
                &&& names(basic, (#[trigger] steps[j]).command@, block[j].command@)
                &&& block[j].delay_ms == steps[j].delay_ms
            },
{
    let resolve = repeat_item(basic_table(basic)->Ok_0);
    lemma_collect_items(steps, resolve);
    assert forall|j: int| 0 <= j < steps.len() implies {
        &&& names(basic, (#[trigger] steps[j]).command@, block[j].command@)
        &&& block[j].delay_ms == steps[j].delay_ms
    } by {
        assert(resolve(steps[j]) is Ok);
        assert(repeat_step_views(block)[j] == block[j]@);
        lemma_named(basic, steps[j].command@);
    }
}

/// A protocol holds, for each name in the red and green sequences, the command of that name, in
/// order; for each item of the red flash what the item stands for, with its own number of rounds
/// and its own pauses; and the time limit of the configuration.
pub proof fn law_protocol_is_what_was_configured(
    config: LightCommandConfig,
    protocol: LightProtocol,
)
    requires
        call_ensures(LightProtocol::from_config, (&config,), Ok::<_, LightProtocolError>(protocol)),
    ensures
        protocol.red@.len() == config.composite.red@.len(),
        forall|i: int|
            0 <= i < protocol.red@.len() ==> (config.composite.red@[i] matches
                CompositeItemConfig::Command { command } && names(
                config.basic,
                command@,
                #[trigger] protocol.red@[i]@,
            )),
        protocol.green@.len() == config.composite.green@.len(),
        forall|i: int|
            0 <= i < protocol.green@.len() ==> (config.composite.green@[i] matches
                CompositeItemConfig::Command { command } && names(
                config.basic,
                command@,
                #[trigger] protocol.green@[i]@,
            )),
        protocol.red_flash@.len() == config.composite.red_flash@.len(),
        forall|i: int|
            0 <= i < protocol.red_flash@.len() ==> is_step_for(
                config.basic,
                config.composite.red_flash@[i],
                #[trigger] protocol.red_flash@[i],
            ),
        protocol.io_timeout_ms == config.timing.io_timeout_ms,
{
    let table = basic_table(config.basic)->Ok_0;
    let simple = sequence_item(table);
    assert(protocol_of(config)->Ok_0 == protocol@);
    lemma_collect_items(config.composite.red@, simple);
    lemma_collect_items(config.composite.green@, simple);
    lemma_collect_items(config.composite.red_flash@, step_item(table));
    assert(protocol@.red == command_views(protocol.red@));
    assert(protocol@.green == command_views(protocol.green@));
    assert(protocol@.red_flash == step_views(protocol.red_flash@));
    assert forall|i: int| 0 <= i < protocol.red@.len() implies (config.composite.red@[i] matches
        CompositeItemConfig::Command { command } && names(
        config.basic,
        command@,
        #[trigger] protocol.red@[i]@,
    )) by {
        assert(simple(config.composite.red@[i]) is Ok);
        assert(command_views(protocol.red@)[i] == protocol.red@[i]@);
        lemma_named(config.basic, config.composite.red@[i]->command@);
    }
    assert forall|i: int| 0 <= i < protocol.green@.len() implies (config.composite.green@[i] matches
        CompositeItemConfig::Command { command } && names(
        config.basic,
        command@,
        #[trigger] protocol.green@[i]@,
    )) by {
        assert(simple(config.composite.green@[i]) is Ok);
        assert(command_views(protocol.green@)[i] == protocol.green@[i]@);
        lemma_named(config.basic, config.composite.green@[i]->command@);
    }
    assert forall|i: int| 0 <= i < protocol.red_flash@.len() implies is_step_for(
        config.basic,
        config.composite.red_flash@[i],
        #[trigger] protocol.red_flash@[i],
    ) by {
        let item = config.composite.red_flash@[i];
        let step = protocol.red_flash@[i];
        assert(step_item(table)(item) == Ok::<_, ProtocolErrorView>(step@)) by {
            assert(step_views(protocol.red_flash@)[i] == step@);
        }
        match item {
            CompositeItemConfig::Command { command } => {
                lemma_named(config.basic, command@);
            },
            CompositeItemConfig::Repeat { repeat, steps } => {
                assert(step is Repeat);
                lemma_repeat_item(config.basic, steps@, step->steps@);
            },
        }
    }
}

proof fn lemma_collect_complete<A, B>(
    items: Seq<A>,
    resolve: spec_fn(A) -> Result<B, ProtocolErrorView>,
)
    requires
        forall|i: int| 0 <= i < items.len() ==> resolve(#[trigger] items[i]) is Ok,
    ensures
        collect(items, resolve) is Ok,
    decreases items.len(),
{
    if items.len() > 0 {
        let init = items.drop_last();
        assert forall|i: int| 0 <= i < init.len() implies resolve(#[trigger] init[i]) is Ok by {
            assert(init[i] == items[i]);
        }
        lemma_collect_complete(init, resolve);
        assert(items[items.len() - 1] == items.last());
    }
}

proof fn lemma_collect_first_error<A, B>(
    items: Seq<A>,
    resolve: spec_fn(A) -> Result<B, ProtocolErrorView>,
    k: int,
)
    requires
        0 <= k < items.len(),
        resolve(items[k]) is Err,
        forall|i: int| 0 <= i < k ==> resolve(#[trigger] items[i]) is Ok,
    ensures
        collect(items, resolve) == Err::<Seq<B>, _>(resolve(items[k])->Err_0),
    decreases items.len(),
{
    let init = items.drop_last();
    if k < init.len() {
        assert forall|i: int| 0 <= i < k implies resolve(#[trigger] init[i]) is Ok by {
            assert(init[i] == items[i]);
        }
        lemma_collect_first_error(init, resolve, k);
    } else {
        assert forall|i: int| 0 <= i < init.len() implies resolve(#[trigger] init[i]) is Ok by {
            assert(init[i] == items[i]);
        }
        lemma_collect_complete(init, resolve);
    }
}

proof fn lemma_simple_item(basic: BasicLightCommandConfig, item: CompositeItemConfig)
    requires
        basic_table(basic) is Ok,
    ensures
        sequence_item(basic_table(basic)->Ok_0)(item) is Ok <==> is_known_command(item),
{
    if let CompositeItemConfig::Command { command } = item {
        lemma_named(basic, command@);
    }
}

proof fn lemma_flash_item(basic: BasicLightCommandConfig, item: CompositeItemConfig)
    requires
        basic_table(basic) is Ok,
    ensures
        step_item(basic_table(basic)->Ok_0)(item) is Ok <==> is_known_item(item),
{
    let table = basic_table(basic)->Ok_0;
    match item {
        CompositeItemConfig::Command { command } => {
            lemma_named(basic, command@);
        },
        CompositeItemConfig::Repeat { repeat, steps } => {
            let resolve = repeat_item(table);
            if is_known_item(item) {
                assert forall|j: int| 0 <= j < steps@.len() implies resolve(
                    #[trigger] steps@[j],
                ) is Ok by {
                    assert(is_name(steps@[j].command@));
                    lemma_named(basic, steps@[j].command@);
                }
                lemma_collect_complete(steps@, resolve);
            } else if collect(steps@, resolve) is Ok {
                lemma_collect_items(steps@, resolve);
                assert forall|j: int| 0 <= j < steps@.len() implies is_name(
                    #[trigger] steps@[j].command@,
                ) by {
                    assert(resolve(steps@[j]) is Ok);
                    lemma_named(basic, steps@[j].command@);
                }
            }
        },
    }
}

/// A configuration resolves if, and only if, its four texts are commands, its red and green
/// sequences hold known names alone, and its red flash holds known names and blocks of them.
pub proof fn law_what_resolves(config: LightCommandConfig, result: Resolution)
    requires
        call_ensures(LightProtocol::from_config, (&config,), result),
    ensures
        result is Ok <==> {
            &&& all_commands(config.basic)
            &&& forall|i: int|
                0 <= i < config.composite.red@.len() ==> is_known_command(
                    #[trigger] config.composite.red@[i],
                )
            &&& forall|i: int|
                0 <= i < config.composite.green@.len() ==> is_known_command(
                    #[trigger] config.composite.green@[i],
                )
            &&& forall|i: int|
                0 <= i < config.composite.red_flash@.len() ==> is_known_item(
                    #[trigger] config.composite.red_flash@[i],
                )
        },
{
    let red = config.composite.red@;
    let green = config.composite.green@;
    let flash = config.composite.red_flash@;
    if all_commands(config.basic) {
        let table = basic_table(config.basic)->Ok_0;
        let simple = sequence_item(table);
        let full = step_item(table);
        assert forall|i: int| 0 <= i < red.len() implies (simple(#[trigger] red[i]) is Ok
            <==> is_known_command(red[i])) by {
            lemma_simple_item(config.basic, red[i]);
        }
        assert forall|i: int| 0 <= i < green.len() implies (simple(#[trigger] green[i]) is Ok
            <==> is_known_command(green[i])) by {
            lemma_simple_item(config.basic, green[i]);
        }
        assert forall|i: int| 0 <= i < flash.len() implies (full(#[trigger] flash[i]) is Ok
            <==> is_known_item(flash[i])) by {
            lemma_flash_item(config.basic, flash[i]);
        }
        if collect(red, simple) is Ok {
            lemma_collect_items(red, simple);
        } else if forall|i: int| 0 <= i < red.len() ==> is_known_command(#[trigger] red[i]) {
            lemma_collect_complete(red, simple);
        }
        if collect(green, simple) is Ok {
            lemma_collect_items(green, simple);
        } else if forall|i: int| 0 <= i < green.len() ==> is_known_command(#[trigger] green[i]) {
            lemma_collect_complete(green, simple);
        }
        if collect(flash, full) is Ok {
            lemma_collect_items(flash, full);
        } else if forall|i: int| 0 <= i < flash.len() ==> is_known_item(#[trigger] flash[i]) {
            lemma_collect_complete(flash, full);
        }
    }
}

/// Whether `error` is what is wrong with an item of a simple sequence: its name is unknown, or it
/// is a block.
pub open spec fn faults_simple_item(item: CompositeItemConfig, error: LightProtocolError) -> bool {
    match item {
        CompositeItemConfig::Command { command } => error matches
            LightProtocolError::UnknownCommand(name) && name@ == command@,
        CompositeItemConfig::Repeat { .. } => error matches LightProtocolError::InvalidCommand(text)
            && text@ == "repeat blocks are not allowed in simple sequences"@,
    }
}

/// A text that is no command is reported before all else; then the first bad item of the red
/// sequence, then of the green one, then of the red flash, where it is the first unknown name of
/// the item.
pub proof fn law_first_fault_is_reported(
    config: LightCommandConfig,
    error: LightProtocolError,
    k: int,
    m: int,
)
    requires
        call_ensures(
            LightProtocol::from_config,
            (&config,),
            Err::<LightProtocol, LightProtocolError>(error),
        ),
    ensures
        command_bytes(config.basic.green_light_off@) is None ==> (error matches
            LightProtocolError::InvalidCommand(text) && text@ == config.basic.green_light_off@),
        command_bytes(config.basic.green_light_off@) is Some && command_bytes(
            config.basic.green_light_on@,
        ) is None ==> (error matches LightProtocolError::InvalidCommand(text) && text@
            == config.basic.green_light_on@),
        command_bytes(config.basic.green_light_off@) is Some && command_bytes(
            config.basic.green_light_on@,
        ) is Some && command_bytes(config.basic.red_light_on@) is None ==> (error matches
            LightProtocolError::InvalidCommand(text) && text@ == config.basic.red_light_on@),
        command_bytes(config.basic.green_light_off@) is Some && command_bytes(
            config.basic.green_light_on@,
        ) is Some && command_bytes(config.basic.red_light_on@) is Some && command_bytes(
            config.basic.red_light_off@,
        ) is None ==> (error matches LightProtocolError::InvalidCommand(text) && text@
            == config.basic.red_light_off@),
        all_commands(config.basic) && first_bad(config.composite.red@, k) ==> faults_simple_item(
            config.composite.red@[k],
            error,
        ),
        all_commands(config.basic) && all_known(config.composite.red@) && first_bad(
            config.composite.green@,
            k,
        ) ==> faults_simple_item(config.composite.green@[k], error),
        all_commands(config.basic) && all_known(config.composite.red@) && all_known(
            config.composite.green@,
        ) && first_bad_name(config.composite.red_flash@, k, m) ==> (error matches
            LightProtocolError::UnknownCommand(name) && name@ == name_at(
            config.composite.red_flash@[k],
            m,
        )),
{
    let red = config.composite.red@;
    let green = config.composite.green@;
    let flash = config.composite.red_flash@;
    assert(protocol_of(config)->Err_0 == error@);
    if all_commands(config.basic) {
        let table = basic_table(config.basic)->Ok_0;
        let simple = sequence_item(table);
        let full = step_item(table);
        assert forall|item: CompositeItemConfig| #[trigger]
            simple(item) is Ok <==> is_known_command(item) by {
            lemma_simple_item(config.basic, item);
        }
        if first_bad(red, k) {
            lemma_collect_first_error(red, simple, k);
            lemma_simple_fault(config.basic, red[k], error);
        }
        if all_known(red) {
            assert forall|i: int| 0 <= i < red.len() implies simple(#[trigger] red[i]) is Ok by {
                assert(is_known_command(red[i]));
            }
            lemma_collect_complete(red, simple);
            if first_bad(green, k) {
                lemma_collect_first_error(green, simple, k);
                lemma_simple_fault(config.basic, green[k], error);
            }
            if all_known(green) && first_bad_name(flash, k, m) {
                assert forall|i: int| 0 <= i < green.len() implies simple(
                    #[trigger] green[i],
                ) is Ok by {
                    assert(is_known_command(green[i]));
                }
                lemma_collect_complete(green, simple);
                assert forall|i: int| 0 <= i < k implies full(#[trigger] flash[i]) is Ok by {
                    lemma_flash_item(config.basic, flash[i]);
                }
                match flash[k] {
                    CompositeItemConfig::Command { command } => {
                        lemma_named(config.basic, command@);
                    },
                    CompositeItemConfig::Repeat { repeat, steps } => {
                        let resolve = repeat_item(table);
                        lemma_named(config.basic, steps@[m].command@);
                        assert forall|j: int| 0 <= j < m implies resolve(
                            #[trigger] steps@[j],
                        ) is Ok by {
                            lemma_named(config.basic, steps@[j].command@);
                        }
                        lemma_collect_first_error(steps@, resolve, m);
                    },
                }
                lemma_collect_first_error(flash, full, k);
            }
        }
    }
}

proof fn lemma_simple_fault(
    basic: BasicLightCommandConfig,
    item: CompositeItemConfig,
    error: LightProtocolError,
)
    requires
        basic_table(basic) is Ok,
        sequence_item(basic_table(basic)->Ok_0)(item) == Err::<Seq<u8>, _>(error@),
    ensures
        faults_simple_item(item, error),
{
    if let CompositeItemConfig::Command { command } = item {
        lemma_named(basic, command@);
    }
}

/// Whether all items are known names.
pub open spec fn all_known(items: Seq<CompositeItemConfig>) -> bool {
    forall|i: int| 0 <= i < items.len() ==> is_known_command(#[trigger] items[i])
}

/// Whether item `k` is the first that is no known name.
pub open spec fn first_bad(items: Seq<CompositeItemConfig>, k: int) -> bool {
    &&& 0 <= k < items.len()
    &&& !is_known_command(items[k])
    &&& forall|i: int| 0 <= i < k ==> is_known_command(#[trigger] items[i])
}

/// The name of an item, or of step `m` of a block.
pub open spec fn name_at(item: CompositeItemConfig, m: int) -> Seq<char> {
    match item {
        CompositeItemConfig::Command { command } => command@,
        CompositeItemConfig::Repeat { repeat, steps } => steps@[m].command@,
    }
}

/// Whether the first unknown name is that of item `k`, or of its step `m`.
pub open spec fn first_bad_name(items: Seq<CompositeItemConfig>, k: int, m: int) -> bool {
    &&& 0 <= k < items.len()
    &&& forall|i: int| 0 <= i < k ==> is_known_item(#[trigger] items[i])
    &&& match items[k] {
        CompositeItemConfig::Command { command } => !is_name(command@),
        CompositeItemConfig::Repeat { repeat, steps } => {
            &&& 0 <= m < steps@.len()
            &&& !is_name(steps@[m].command@)
            &&& forall|j: int| 0 <= j < m ==> is_name(#[trigger] steps@[j].command@)
        },
    }
}

/// The four texts are found readable where each can be read, in the order green off, green on, red
/// on, red off, up to the first that is no command. What is found readable can be resolved, and
/// what resolves makes a service.
pub proof fn law_readable_configurations(
    config: LightConfig,
    texts: (&str, &str, &str, &str),
    readable: (bool, bool, bool, bool),
    found: bool,
    result: Resolution,
)
    requires
        call_ensures(basic_commands_readable, (&config.commands.basic,), found),
        texts.0@ == config.commands.basic.green_light_off@,
        texts.1@ == config.commands.basic.green_light_on@,
        texts.2@ == config.commands.basic.red_light_on@,
        texts.3@ == config.commands.basic.red_light_off@,
        call_ensures(reads_whole_characters, (texts.0,), readable.0),
        call_ensures(reads_whole_characters, (texts.1,), readable.1),
        call_ensures(reads_whole_characters, (texts.2,), readable.2),
        call_ensures(reads_whole_characters, (texts.3,), readable.3),
        call_ensures(LightProtocol::from_config, (&config.commands,), result),
    ensures
        !readable.0 ==> !found,
        readable.0 && command_bytes(texts.0@) is None ==> found,
        readable.0 && command_bytes(texts.0@) is Some && !readable.1 ==> !found,
        readable.0 && command_bytes(texts.0@) is Some && readable.1 && command_bytes(
            texts.1@,
        ) is None ==> found,
        readable.0 && command_bytes(texts.0@) is Some && readable.1 && command_bytes(
            texts.1@,
        ) is Some && !readable.2 ==> !found,
        readable.0 && readable.1 && readable.2 && readable.3 ==> found,
        found && command_bytes(texts.0@) is Some && command_bytes(texts.1@) is Some
            && command_bytes(texts.2@) is Some ==> readable.3,
        readable.0 && readable.1 && readable.2 && command_bytes(texts.2@) is None ==> found,
        found ==> call_requires(parse_basic_commands, (&config.commands.basic,)),
        found ==> call_requires(LightProtocol::from_config, (&config.commands,)),
        found && result is Ok ==> call_requires(LightService::new, (&config,)),
{
}

/// A configuration whose four texts are plain is always resolved or refused.
pub proof fn law_plain_configurations_can_be_read(config: LightCommandConfig)
    requires
        plain(config.basic.green_light_off@),
        plain(config.basic.green_light_on@),
        plain(config.basic.red_light_on@),
        plain(config.basic.red_light_off@),
    ensures
        call_requires(parse_basic_commands, (&config.basic,)),
        call_requires(LightProtocol::from_config, (&config,)),
{
    law_ascii_is_read_whole(config.basic.green_light_off@);
    law_ascii_is_read_whole(config.basic.green_light_on@);
    law_ascii_is_read_whole(config.basic.red_light_on@);
    law_ascii_is_read_whole(config.basic.red_light_off@);
    assert(basic_reads_whole(config.basic));
}

} // verus!
