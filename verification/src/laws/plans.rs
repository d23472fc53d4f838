//! What is sent to a light for a status, and in what order.

use crate::config::{
    BasicLightCommandConfig, CompositeItemConfig, CompositeStepConfig, LightCommandConfig,
    LightConfig,
};
use crate::laws::protocol::{is_step_for, law_protocol_is_what_was_configured, names};
use crate::light::plan::{
    block_actions, pause_actions, sends, step_actions, steps_actions, times, ActionView, Directive,
    LightAction, LightPlan,
};
use crate::light::protocol::{
    basic_table, command_views, lemma_collect_items, protocol_of, repeat_step_views, step_item,
    step_views, LightProtocol, LightProtocolError, LightStatus, ProtocolErrorView, RepeatStepView,
    RuntimeRepeatStep, RuntimeStep, StepView,
};
use crate::light::runtime::{send_status, JobStep, LightJob, LightService};
use crate::light_runtime;
use vstd::prelude::*;

verus! {

/// The number of actions before step `j` of a block whose steps have these pauses: one for each
/// command, and one for each pause.
pub open spec fn place(pauses: Seq<Option<u64>>, j: int) -> int
    decreases j,
{
    if j <= 0 {
        0
    } else {
        place(pauses, j - 1) + (if pauses[j - 1] is Some {
            2int
        } else {
            1int
        })
    }
}

/// The number of commands among the actions.
pub open spec fn commands_in(actions: Seq<ActionView>) -> nat
    decreases actions.len(),
{
    if actions.len() == 0 {
        0
    } else {
        commands_in(actions.drop_last()) + (if actions.last() is Send {
            1nat
        } else {
            0nat
        })
    }
}

/// The pauses of the steps of a block.
pub open spec fn pauses_of(steps: Seq<RuntimeRepeatStep>) -> Seq<Option<u64>> {
    Seq::new(steps.len(), |j: int| steps[j].delay_ms)
}

/// The pauses of the steps of a configured block.
pub open spec fn configured_pauses(steps: Seq<CompositeStepConfig>) -> Seq<Option<u64>> {
    Seq::new(steps.len(), |j: int| steps[j].delay_ms)
}

spec fn view_pauses(steps: Seq<RepeatStepView>) -> Seq<Option<u64>> {
    Seq::new(steps.len(), |j: int| steps[j].delay_ms)
}

proof fn lemma_place_shift(pauses: Seq<Option<u64>>, j: int)
    requires
        1 <= j <= pauses.len(),
    ensures
        place(pauses, j) == place(pauses, 1) + place(pauses.drop_first(), j - 1),
    decreases j,
{
    if j > 1 {
        lemma_place_shift(pauses, j - 1);
        assert(pauses.drop_first()[j - 2] == pauses[j - 1]);
    }
}

proof fn lemma_block_size(steps: Seq<RepeatStepView>)
    ensures
        block_actions(steps).len() == place(view_pauses(steps), steps.len() as int),
    decreases steps.len(),
{
    if steps.len() > 0 {
        let pauses = view_pauses(steps);
        lemma_block_size(steps.drop_first());
        assert(view_pauses(steps.drop_first()) =~= pauses.drop_first());
        lemma_place_shift(pauses, steps.len() as int);
        assert(place(pauses, 0) == 0);
    }
}

proof fn lemma_block(steps: Seq<RepeatStepView>, j: int)
    requires
        0 <= j < steps.len(),
    ensures
        0 <= place(view_pauses(steps), j) < block_actions(steps).len(),
        block_actions(steps)[place(view_pauses(steps), j)] == ActionView::Send(steps[j].command),
        steps[j].delay_ms matches Some(ms) ==> place(view_pauses(steps), j) + 1 < block_actions(
            steps,
        ).len() && block_actions(steps)[place(view_pauses(steps), j) + 1] == ActionView::Sleep(ms),
    decreases steps.len(),
{
    let pauses = view_pauses(steps);
    let rest = steps.drop_first();
    let head = seq![ActionView::Send(steps[0].command)] + pause_actions(steps[0].delay_ms);
    let later = block_actions(rest);
    let actions = block_actions(steps);
    assert(actions == head + later);
    if j == 0 {
        assert(actions[0] == head[0]);
        if steps[0].delay_ms is Some {
            assert(actions[1] == head[1]);
        }
    } else {
        lemma_block(rest, j - 1);
        assert(view_pauses(rest) =~= pauses.drop_first());
        lemma_place_shift(pauses, j);
        assert(place(pauses, 0) == 0);
        assert(place(pauses, 1) == head.len());
        let at = place(pauses.drop_first(), j - 1);
        assert(rest[j - 1] == steps[j]);
        assert(actions[head.len() + at] == later[at]);
        if steps[j].delay_ms is Some {
            assert(actions[head.len() + at + 1] == later[at + 1]);
        }
    }
}

proof fn lemma_times(count: nat, actions: Seq<ActionView>)
    ensures
        times(count, actions).len() == count * actions.len(),
        forall|round: int, i: int|
            0 <= round < count && 0 <= i < actions.len() ==> {
                &&& 0 <= #[trigger] at_round(round, actions.len(), i) < times(count, actions).len()
                &&& times(count, actions)[at_round(round, actions.len(), i)] == actions[i]
            },
    decreases count,
{
    let size = actions.len() as int;
    if count > 0 {
        let fewer = (count - 1) as nat;
        lemma_times(fewer, actions);
        assert(count * size == size + fewer * size) by (nonlinear_arith)
            requires
                count == fewer + 1,
        ;
        assert forall|round: int, i: int| 0 <= round < count && 0 <= i < size implies {
            &&& 0 <= #[trigger] at_round(round, actions.len(), i) < times(count, actions).len()
            &&& times(count, actions)[at_round(round, actions.len(), i)] == actions[i]
        } by {
            let at = at_round(round, actions.len(), i);
            if round == 0 {
                assert(at == i) by (nonlinear_arith)
                    requires
                        at == round * size + i,
                        round == 0,
                ;
            } else {
                let before = at_round(round - 1, actions.len(), i);
                assert(at == size + before) by (nonlinear_arith)
                    requires
                        at == round * size + i,
                        before == (round - 1) * size + i,
                ;
                assert(times(count, actions)[at] == times(fewer, actions)[before]);
            }
        }
    } else {
        assert(0 * size == 0);
    }
}

/// The place of item `i` in round `round`, where a round has `size` items.
pub open spec fn at_round(round: int, size: nat, i: int) -> int {
    round * size + i
}

proof fn lemma_commands_concat(a: Seq<ActionView>, b: Seq<ActionView>)
    ensures
        commands_in(a + b) == commands_in(a) + commands_in(b),
    decreases b.len(),
{
    if b.len() == 0 {
        assert(a + b =~= a);
    } else {
        lemma_commands_concat(a, b.drop_last());
        assert((a + b).drop_last() =~= a + b.drop_last());
    }
}

proof fn lemma_commands_in_block(steps: Seq<RepeatStepView>)
    ensures
        commands_in(block_actions(steps)) == steps.len(),
    decreases steps.len(),
{
    reveal_with_fuel(commands_in, 3);
    if steps.len() > 0 {
        let head = seq![ActionView::Send(steps[0].command)] + pause_actions(steps[0].delay_ms);
        lemma_commands_in_block(steps.drop_first());
        lemma_commands_concat(head, block_actions(steps.drop_first()));
        if let Some(ms) = steps[0].delay_ms {
            assert(head.drop_last() =~= seq![ActionView::Send(steps[0].command)]);
            assert(head.drop_last().drop_last() =~= Seq::<ActionView>::empty());
        } else {
            assert(head =~= seq![ActionView::Send(steps[0].command)]);
            assert(head.drop_last() =~= Seq::<ActionView>::empty());
        }
        assert(commands_in(head) == 1);
    }
}

proof fn lemma_commands_in_times(count: nat, actions: Seq<ActionView>)
    ensures
        commands_in(times(count, actions)) == count * commands_in(actions),
    decreases count,
{
    let each = commands_in(actions) as int;
    if count > 0 {
        let fewer = (count - 1) as nat;
        lemma_commands_in_times(fewer, actions);
        lemma_commands_concat(actions, times(fewer, actions));
        assert(count * each == each + fewer * each) by (nonlinear_arith)
            requires
                count == fewer + 1,
        ;
    } else {
        assert(0 * each == 0);
    }
}

proof fn lemma_steps_concat(a: Seq<StepView>, b: Seq<StepView>)
    ensures
        steps_actions(a + b) == steps_actions(a) + steps_actions(b),
    decreases a.len(),
{
    if a.len() == 0 {
        assert(a + b =~= b);
        assert(steps_actions(a) + steps_actions(b) =~= steps_actions(b));
    } else {
        lemma_steps_concat(a.drop_first(), b);
        assert((a + b).drop_first() =~= a.drop_first() + b);
        assert((a + b)[0] == a[0]);
        assert(steps_actions(a + b) =~= steps_actions(a) + steps_actions(b));
    }
}

proof fn lemma_one_step(step: StepView)
    ensures
        steps_actions(seq![step]) == step_actions(step),
{
    reveal_with_fuel(steps_actions, 2);
    assert(seq![step].drop_first() =~= Seq::<StepView>::empty());
    assert(step_actions(step) + Seq::<ActionView>::empty() =~= step_actions(step));
}

/// A plan of commands sends each of them once, in order, and does nothing else.
pub proof fn law_plan_of_commands(commands: Vec<Vec<u8>>, plan: LightPlan)
    requires
        call_ensures(LightPlan::of_commands, (&commands,), plan),
    ensures
        plan.remaining().len() == commands@.len(),
        forall|i: int|
            0 <= i < commands@.len() ==> plan.remaining()[i] == ActionView::Send(
                #[trigger] commands@[i]@,
            ),
{
    let views = command_views(commands@);
    assert forall|i: int| 0 <= i < commands@.len() implies plan.remaining()[i] == ActionView::Send(
        #[trigger] commands@[i]@,
    ) by {
        assert(sends(views)[i] == ActionView::Send(views[i]));
    }
}

/// A plan goes through its steps in order.
pub proof fn law_steps_follow_one_another(
    steps: Vec<RuntimeStep>,
    first: Vec<RuntimeStep>,
    second: Vec<RuntimeStep>,
    plan: LightPlan,
    one: LightPlan,
    two: LightPlan,
)
    requires
        call_ensures(LightPlan::of_steps, (&steps,), plan),
        call_ensures(LightPlan::of_steps, (&first,), one),
        call_ensures(LightPlan::of_steps, (&second,), two),
        steps@ == first@ + second@,
    ensures
        plan.remaining() == one.remaining() + two.remaining(),
{
    assert(step_views(steps@) =~= step_views(first@) + step_views(second@));
    lemma_steps_concat(step_views(first@), step_views(second@));
}

/// A step that is one command sends it once.
pub proof fn law_step_of_one_command(steps: Vec<RuntimeStep>, command: Vec<u8>, plan: LightPlan)
    requires
        call_ensures(LightPlan::of_steps, (&steps,), plan),
        steps@ == seq![RuntimeStep::Command(command)],
    ensures
        plan.remaining() == seq![ActionView::Send(command@)],
{
    assert(step_views(steps@) =~= seq![StepView::Command(command@)]);
    lemma_one_step(StepView::Command(command@));
}

/// A block is gone through as many times as it says: in each round every command is sent in
/// order, and each is followed by its own pause, if it has one.
pub proof fn law_block_is_repeated(
    steps: Vec<RuntimeStep>,
    repeat: usize,
    block: Vec<RuntimeRepeatStep>,
    plan: LightPlan,
    round: int,
    j: int,
)
    requires
        call_ensures(LightPlan::of_steps, (&steps,), plan),
        steps@ == seq![RuntimeStep::Repeat { repeat, steps: block }],
    ensures
        commands_in(plan.remaining()) == repeat * block@.len(),
        plan.remaining().len() == repeat * place(pauses_of(block@), block@.len() as int),
        0 <= round < repeat && 0 <= j < block@.len() ==> {
            let at = round * place(pauses_of(block@), block@.len() as int) + place(
                pauses_of(block@),
                j,
            );
            &&& 0 <= at < plan.remaining().len()
            &&& plan.remaining()[at] == ActionView::Send(block@[j].command@)
            &&& block@[j].delay_ms matches Some(ms) ==> at + 1 < plan.remaining().len()
                && plan.remaining()[at + 1] == ActionView::Sleep(ms)
        },
{
    let views = repeat_step_views(block@);
    let step = StepView::Repeat { repeat: repeat as nat, steps: views };
    assert(step_views(steps@) =~= seq![step]);
    lemma_one_step(step);
    lemma_block_repeated(repeat as nat, views, round, j);
    assert(view_pauses(views) =~= pauses_of(block@));
}

proof fn lemma_block_repeated(repeat: nat, views: Seq<RepeatStepView>, round: int, j: int)
    ensures
        commands_in(times(repeat, block_actions(views))) == repeat * views.len(),
        times(repeat, block_actions(views)).len() == repeat * place(
            view_pauses(views),
            views.len() as int,
        ),
        0 <= round < repeat && 0 <= j < views.len() ==> {
            let at = round * place(view_pauses(views), views.len() as int) + place(
                view_pauses(views),
                j,
            );
            let actions = times(repeat, block_actions(views));
            &&& 0 <= at < actions.len()
            &&& actions[at] == ActionView::Send(views[j].command)
            &&& views[j].delay_ms matches Some(ms) ==> at + 1 < actions.len() && actions[at + 1]
                == ActionView::Sleep(ms)
        },
{
    let once = block_actions(views);
    let actions = times(repeat, once);
    lemma_block_size(views);
    lemma_times(repeat, once);
    lemma_commands_in_block(views);
    lemma_commands_in_times(repeat, once);
    if 0 <= round < repeat && 0 <= j < views.len() {
        lemma_block(views, j);
        let start = place(view_pauses(views), j);
        assert(once[start] == ActionView::Send(views[j].command));
        let at = at_round(round, once.len(), start);
        assert(actions[at] == once[start]);
        if views[j].delay_ms is Some {
            let next = at_round(round, once.len(), start + 1);
            assert(next == at + 1);
            assert(actions[next] == once[start + 1]);
        }
    }
}

/// For red and green the commands of the protocol are sent, each once and in order; for the red
/// flash the plan is that of its steps.
pub proof fn law_status_runs_its_sequence(
    protocol: LightProtocol,
    status: LightStatus,
    plan: LightPlan,
    flash: LightPlan,
)
    requires
        call_ensures(send_status, (&protocol, status), plan),
        call_ensures(LightPlan::of_steps, (&protocol.red_flash,), flash),
    ensures
        status is Red ==> plan.remaining().len() == protocol.red@.len() && forall|i: int|
            0 <= i < protocol.red@.len() ==> plan.remaining()[i] == ActionView::Send(
                #[trigger] protocol.red@[i]@,
            ),
        status is Green ==> plan.remaining().len() == protocol.green@.len() && forall|i: int|
            0 <= i < protocol.green@.len() ==> plan.remaining()[i] == ActionView::Send(
                #[trigger] protocol.green@[i]@,
            ),
        status is RedFlash ==> plan.remaining() == flash.remaining(),
{
    if status is Red {
        assert forall|i: int| 0 <= i < protocol.red@.len() implies plan.remaining()[i]
            == ActionView::Send(#[trigger] protocol.red@[i]@) by {
            assert(sends(protocol@.red)[i] == ActionView::Send(protocol@.red[i]));
        }
    }
    if status is Green {
        assert forall|i: int| 0 <= i < protocol.green@.len() implies plan.remaining()[i]
            == ActionView::Send(#[trigger] protocol.green@[i]@) by {
            assert(sends(protocol@.green)[i] == ActionView::Send(protocol@.green[i]));
        }
    }
}

/// To show red or green, the commands that the configuration names for it are sent, in order.
pub proof fn law_configured_sequence_is_sent(
    config: LightCommandConfig,
    protocol: LightProtocol,
    status: LightStatus,
    plan: LightPlan,
)
    requires
        call_ensures(LightProtocol::from_config, (&config,), Ok::<_, LightProtocolError>(protocol)),
        call_ensures(send_status, (&protocol, status), plan),
    ensures
        status is Red ==> sends_named(config.basic, config.composite.red@, plan.remaining()),
        status is Green ==> sends_named(config.basic, config.composite.green@, plan.remaining()),
{
    law_protocol_is_what_was_configured(config, protocol);
    if status is Red {
        assert forall|i: int| 0 <= i < plan.remaining().len() implies (
        #[trigger] plan.remaining()[i] matches ActionView::Send(bytes) && (
        config.composite.red@[i] matches CompositeItemConfig::Command { command } && names(
            config.basic,
            command@,
            bytes,
        ))) by {
            assert(sends(protocol@.red)[i] == ActionView::Send(protocol@.red[i]));
            assert(protocol@.red[i] == protocol.red@[i]@);
        }
    }
    if status is Green {
        assert forall|i: int| 0 <= i < plan.remaining().len() implies (
        #[trigger] plan.remaining()[i] matches ActionView::Send(bytes) && (
        config.composite.green@[i] matches CompositeItemConfig::Command { command } && names(
            config.basic,
            command@,
            bytes,
        ))) by {
            assert(sends(protocol@.green)[i] == ActionView::Send(protocol@.green[i]));
            assert(protocol@.green[i] == protocol.green@[i]@);
        }
    }
}

/// Whether the actions send the command that each item names, in order, and nothing else.
pub open spec fn sends_named(
    basic: BasicLightCommandConfig,
    items: Seq<CompositeItemConfig>,
    actions: Seq<ActionView>,
) -> bool {
    &&& actions.len() == items.len()
    &&& forall|i: int|
        0 <= i < actions.len() ==> (#[trigger] actions[i] matches ActionView::Send(bytes) && (
        items[i] matches CompositeItemConfig::Command { command } && names(basic, command@, bytes)))
}

/// A red flash that is configured as one block sends all its commands as many times as the block
/// says, whatever that number is: in each round every named command in order, and after each its
/// own pause, if it has one.
pub proof fn law_configured_block_is_repeated(
    config: LightCommandConfig,
    protocol: LightProtocol,
    plan: LightPlan,
    round: int,
    j: int,
)
    requires
        call_ensures(LightProtocol::from_config, (&config,), Ok::<_, LightProtocolError>(protocol)),
        call_ensures(send_status, (&protocol, LightStatus::RedFlash), plan),
        config.composite.red_flash@.len() == 1,
        config.composite.red_flash@[0] is Repeat,
    ensures
        ({
            let repeat = config.composite.red_flash@[0]->repeat;
            let steps = config.composite.red_flash@[0]->steps@;
            let pauses = configured_pauses(steps);
            let round_size = place(pauses, steps.len() as int);
            let at = round * round_size + place(pauses, j);
            &&& commands_in(plan.remaining()) == repeat * steps.len()
            &&& plan.remaining().len() == repeat * round_size
            &&& 0 <= round < repeat && 0 <= j < steps.len() ==> {
                &&& 0 <= at < plan.remaining().len()
                &&& plan.remaining()[at] matches ActionView::Send(bytes) && names(
                    config.basic,
                    steps[j].command@,
                    bytes,
                )
                &&& steps[j].delay_ms matches Some(ms) ==> at + 1 < plan.remaining().len()
                    && plan.remaining()[at + 1] == ActionView::Sleep(ms)
            }
        }),
{
    law_protocol_is_what_was_configured(config, protocol);
    let item = config.composite.red_flash@[0];
    let step = protocol.red_flash@[0];
    assert(is_step_for(config.basic, item, step));
    let steps = item->steps@;
    let views = repeat_step_views(step->steps@);
    let view = StepView::Repeat { repeat: step->repeat as nat, steps: views };
    assert(step_views(protocol.red_flash@) =~= seq![view]);
    lemma_one_step(view);
    lemma_block_repeated(step->repeat as nat, views, round, j);
    assert(view_pauses(views) =~= configured_pauses(steps)) by {
        assert forall|i: int| 0 <= i < steps.len() implies view_pauses(views)[i]
            == configured_pauses(steps)[i] by {
            assert(step->steps@[i].delay_ms == steps[i].delay_ms);
        }
    }
    if 0 <= j < steps.len() {
        assert(names(config.basic, steps[j].command@, step->steps@[j].command@));
    }
}

/// A red flash that is configured as one name sends that command once.
pub proof fn law_configured_command_is_sent_once(
    config: LightCommandConfig,
    protocol: LightProtocol,
    plan: LightPlan,
)
    requires
        call_ensures(LightProtocol::from_config, (&config,), Ok::<_, LightProtocolError>(protocol)),
        call_ensures(send_status, (&protocol, LightStatus::RedFlash), plan),
        config.composite.red_flash@.len() == 1,
        config.composite.red_flash@[0] is Command,
    ensures
        plan.remaining().len() == 1,
        plan.remaining()[0] matches ActionView::Send(bytes) && names(
            config.basic,
            config.composite.red_flash@[0]->command@,
            bytes,
        ),
{
    law_protocol_is_what_was_configured(config, protocol);
    let step = protocol.red_flash@[0];
    assert(is_step_for(config.basic, config.composite.red_flash@[0], step));
    assert(step_views(protocol.red_flash@) =~= seq![step@]);
    lemma_one_step(step@);
}

/// The items of a red flash follow one another: what is done for some items and then others is
/// what is done for the former, and then for the latter.
pub proof fn law_configured_items_follow_one_another(
    config: LightCommandConfig,
    first: LightCommandConfig,
    second: LightCommandConfig,
    protocols: (LightProtocol, LightProtocol, LightProtocol),
    plans: (LightPlan, LightPlan, LightPlan),
)
    requires
        call_ensures(
            LightProtocol::from_config,
            (&config,),
            Ok::<_, LightProtocolError>(protocols.0),
        ),
        call_ensures(
            LightProtocol::from_config,
            (&first,),
            Ok::<_, LightProtocolError>(protocols.1),
        ),
        call_ensures(
            LightProtocol::from_config,
            (&second,),
            Ok::<_, LightProtocolError>(protocols.2),
        ),
        call_ensures(send_status, (&protocols.0, LightStatus::RedFlash), plans.0),
        call_ensures(send_status, (&protocols.1, LightStatus::RedFlash), plans.1),
        call_ensures(send_status, (&protocols.2, LightStatus::RedFlash), plans.2),
        first.basic == config.basic,
        second.basic == config.basic,
        config.composite.red_flash@ == first.composite.red_flash@ + second.composite.red_flash@,
    ensures
        plans.0.remaining() == plans.1.remaining() + plans.2.remaining(),
{
    let table = basic_table(config.basic)->Ok_0;
    let all = config.composite.red_flash@;
    let a = first.composite.red_flash@;
    let b = second.composite.red_flash@;
    lemma_collect_items(all, step_item(table));
    lemma_collect_items(a, step_item(table));
    lemma_collect_items(b, step_item(table));
    let whole = protocols.0@.red_flash;
    let one = protocols.1@.red_flash;
    let two = protocols.2@.red_flash;
    assert forall|i: int| 0 <= i < all.len() implies whole[i] == (one + two)[i] by {
        assert(step_item(table)(all[i]) == Ok::<_, ProtocolErrorView>(whole[i]));
        if i < a.len() {
            assert(all[i] == a[i]);
            assert(step_item(table)(a[i]) == Ok::<_, ProtocolErrorView>(one[i]));
        } else {
            assert(all[i] == b[i - a.len()]);
            assert(step_item(table)(b[i - a.len()]) == Ok::<_, ProtocolErrorView>(
                two[i - a.len()],
            ));
        }
    }
    assert(whole =~= one + two);
    lemma_steps_concat(one, two);
}

/// The actions of a plan are handed out one by one, in order, until none is left.
pub proof fn law_actions_are_handed_out_in_order(plan: &mut LightPlan, action: Option<LightAction>)
    requires
        call_ensures(LightPlan::next, (plan,), action),
    ensures
        old(plan).remaining().len() > 0 ==> action is Some && action->0@ == old(
            plan,
        ).remaining()[0] && final(plan).remaining() == old(plan).remaining().skip(1),
        old(plan).remaining().len() == 0 ==> action is None && final(plan).remaining().len() == 0,
{
    assert(old(plan).remaining().drop_first() =~= old(plan).remaining().skip(1));
}

/// A plan goes on after a success with the action that is next, and ends with success where none
/// is left; after a failure it ends with that failure, whatever is left.
pub proof fn law_failure_ends_a_plan<E>(
    plan: &mut LightPlan,
    last: Result<(), E>,
    directive: Directive<E>,
)
    requires
        call_ensures(LightPlan::advance::<E>, (plan, last), directive),
    ensures
        last is Err ==> directive == Directive::<E>::Finish(last) && final(plan).remaining() == old(
            plan,
        ).remaining(),
        last is Ok && old(plan).remaining().len() > 0 ==> (directive matches Directive::Act(action)
            && action@ == old(plan).remaining()[0] && final(plan).remaining() == old(
            plan,
        ).remaining().skip(1)),
        last is Ok && old(plan).remaining().len() == 0 ==> (directive matches Directive::Finish(
            result,
        ) && result is Ok),
{
    assert(old(plan).remaining().len() > 0 ==> old(plan).remaining().drop_first() =~= old(
        plan,
    ).remaining().skip(1));
}

/// A job sends the commands of its plan to its light, each within its time limit, and ends at the
/// first failure or when nothing is left.
pub proof fn law_job_drives_its_light<E>(
    job: &mut LightJob,
    last: Result<(), E>,
    step: JobStep<E>,
)
    requires
        call_ensures(LightJob::advance::<E>, (job, last), step),
    ensures
        final(job).route == old(job).route,
        final(job).io_timeout_ms == old(job).io_timeout_ms,
        last is Err ==> step == JobStep::<E>::Finish(last),
        last is Ok && old(job).plan.remaining().len() == 0 ==> (step matches JobStep::Finish(result)
            && result is Ok),
        last is Ok && old(job).plan.remaining().len() > 0 ==> {
            &&& final(job).plan.remaining() == old(job).plan.remaining().skip(1)
            &&& match old(job).plan.remaining()[0] {
                ActionView::Send(command) => {
                    &&& step matches JobStep::Send(task)
                    &&& task.command@ == command
                    &&& task.address@ == old(job).route.runtime.address@
                    &&& task.io_timeout_ms == old(job).io_timeout_ms
                },
                ActionView::Sleep(pause) => step matches JobStep::Sleep(ms) && ms == pause,
            }
        },
{
    assert(old(job).plan.remaining().len() > 0 ==> old(job).plan.remaining().drop_first() =~= old(
        job,
    ).plan.remaining().skip(1));
}

/// A job with the built-in commands does the same, with one second for each transmission.
pub proof fn law_built_in_job_drives_its_light<E>(
    job: &mut light_runtime::LightJob,
    last: Result<(), E>,
    step: JobStep<E>,
)
    requires
        call_ensures(light_runtime::LightJob::advance::<E>, (job, last), step),
    ensures
        final(job).route == old(job).route,
        last is Err ==> step == JobStep::<E>::Finish(last),
        last is Ok && old(job).plan.remaining().len() == 0 ==> (step matches JobStep::Finish(result)
            && result is Ok),
        last is Ok && old(job).plan.remaining().len() > 0 ==> {
            &&& final(job).plan.remaining() == old(job).plan.remaining().skip(1)
            &&& match old(job).plan.remaining()[0] {
                ActionView::Send(command) => {
                    &&& step matches JobStep::Send(task)
                    &&& task.command@ == command
                    &&& task.address@ == old(job).route.runtime.address@
                    &&& task.io_timeout_ms == 1000
                },
                ActionView::Sleep(pause) => step matches JobStep::Sleep(ms) && ms == pause,
            }
        },
{
    assert(old(job).plan.remaining().len() > 0 ==> old(job).plan.remaining().drop_first() =~= old(
        job,
    ).plan.remaining().skip(1));
}

/// A job of the service does, within the configured time limit, what the configuration asks for.
pub proof fn law_service_does_what_was_configured(
    config: LightConfig,
    service: LightService,
    protocol: LightProtocol,
    status: LightStatus,
    light_ip: &str,
    job: LightJob,
    plan: LightPlan,
    limit: u64,
)
    requires
        call_ensures(LightService::new, (&config,), service),
        call_ensures(LightService::io_timeout_ms, (&service,), limit),
        call_ensures(LightService::light, (&service, status, light_ip), job),
        call_ensures(
            LightProtocol::from_config,
            (&config.commands,),
            Ok::<_, LightProtocolError>(protocol),
        ),
        call_ensures(send_status, (&protocol, status), plan),
    ensures
        job.plan.remaining() == plan.remaining(),
        job.io_timeout_ms == config.commands.timing.io_timeout_ms,
        limit == config.commands.timing.io_timeout_ms,
{
    assert(protocol_of(config.commands)->Ok_0 == protocol@);
}

/// With the built-in commands, red is green off and red on, green is red off and green on, and a
/// red flash is green off, five times red on for half a second and red off for a fifth of a
/// second, and then green.
pub proof fn law_built_in_sequences(status: LightStatus, plan: LightPlan, round: int)
    requires
        call_ensures(light_runtime::send_status, (status,), plan),
    ensures
        ({
            let green_off = ActionView::Send(seq![1u8, 5, 0, 0, 255, 0, 140, 58]);
            let green_on = ActionView::Send(seq![1u8, 5, 0, 0, 0, 0, 205, 202]);
            let red_on = ActionView::Send(seq![1u8, 5, 0, 2, 255, 0, 45, 250]);
            let red_off = ActionView::Send(seq![1u8, 5, 0, 2, 0, 0, 108, 10]);
            let actions = plan.remaining();
            &&& status is Red ==> actions == seq![green_off, red_on]
            &&& status is Green ==> actions == seq![red_off, green_on]
            &&& status is RedFlash ==> {
                &&& actions.len() == 23
                &&& actions[0] == green_off
                &&& 0 <= round < 5 ==> {
                    &&& actions[4 * round + 1] == red_on
                    &&& actions[4 * round + 2] == ActionView::Sleep(500)
                    &&& actions[4 * round + 3] == red_off
                    &&& actions[4 * round + 4] == ActionView::Sleep(200)
                }
                &&& actions[21] == red_off
                &&& actions[22] == green_on
            }
        }),
{
    assert(light_runtime::GREEN_LIGHT_OFF@ =~= seq![1u8, 5, 0, 0, 255, 0, 140, 58]);
    assert(light_runtime::GREEN_LIGHT_ON@ =~= seq![1u8, 5, 0, 0, 0, 0, 205, 202]);
    assert(light_runtime::RED_LIGHT_ON@ =~= seq![1u8, 5, 0, 2, 255, 0, 45, 250]);
    assert(light_runtime::RED_LIGHT_OFF@ =~= seq![1u8, 5, 0, 2, 0, 0, 108, 10]);
    if status is RedFlash {
        let flash = light_runtime::flash_actions();
        lemma_times(5, flash);
        assert(times(5, flash).len() == 20);
        if 0 <= round < 5 {
            assert(at_round(round, flash.len(), 0) == 4 * round);
            assert(times(5, flash)[at_round(round, flash.len(), 0)] == flash[0]);
            assert(times(5, flash)[at_round(round, flash.len(), 1)] == flash[1]);
            assert(times(5, flash)[at_round(round, flash.len(), 2)] == flash[2]);
            assert(times(5, flash)[at_round(round, flash.len(), 3)] == flash[3]);
        }
    }
}

} // verus!
