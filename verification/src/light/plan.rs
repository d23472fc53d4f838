//! What is sent to a light for a status, one action at a time.

use crate::config::{BasicLightCommandConfig, CompositeItemConfig, LightCommandConfig};
use crate::light::command_text::command_bytes;
use crate::light::protocol::{
    basic_table, collect, command_views, copy_steps, lemma_collect_items, named_command,
    protocol_of, repeat_item, repeat_step_views, sequence_item, step_item, step_views, LightStatus,
    ProtocolView, RepeatStepView, RuntimeStep, StepView,
};
use crate::text::copy_bytes;
use vstd::prelude::*;

verus! {

/// One thing to do: send a command, or pause for some milliseconds.
#[derive(Debug, PartialEq, Eq)]
pub enum LightAction {
    Send(Vec<u8>),
    Sleep(u64),
}

/// A [`LightAction`] as plain values.
#[verifier::ext_equal]
pub enum ActionView {
    Send(Seq<u8>),
    Sleep(u64),
}

impl View for LightAction {
    type V = ActionView;

    open spec fn view(&self) -> ActionView {
        match self {
            LightAction::Send(command) => ActionView::Send(command@),
            LightAction::Sleep(ms) => ActionView::Sleep(*ms),
        }
    }
}

/// What to do next, once the last action is over.
pub enum Directive<E> {
    Act(LightAction),
    Finish(Result<(), E>),
}

/// The pause after a step, if it has one.
pub open spec fn pause_actions(delay_ms: Option<u64>) -> Seq<ActionView> {
    match delay_ms {
        Some(ms) => seq![ActionView::Sleep(ms)],
        None => Seq::empty(),
    }
}

/// One pass through a repeated block: each command, followed by its pause.
pub open spec fn block_actions(steps: Seq<RepeatStepView>) -> Seq<ActionView>
    decreases steps.len(),
{
    if steps.len() == 0 {
        Seq::empty()
    } else {
        seq![ActionView::Send(steps[0].command)] + pause_actions(steps[0].delay_ms)
            + block_actions(steps.drop_first())
    }
}

/// `actions`, `count` times in a row.
pub open spec fn times(count: nat, actions: Seq<ActionView>) -> Seq<ActionView>
    decreases count,
{
    if count == 0 {
        Seq::empty()
    } else {
        actions + times((count - 1) as nat, actions)
    }
}

/// The actions of one step.
pub open spec fn step_actions(step: StepView) -> Seq<ActionView> {
    match step {
        StepView::Command(command) => seq![ActionView::Send(command)],
        StepView::Repeat { repeat, steps } => times(repeat, block_actions(steps)),
    }
}

/// The actions of all steps in order.
pub open spec fn steps_actions(steps: Seq<StepView>) -> Seq<ActionView>
    decreases steps.len(),
{
    if steps.len() == 0 {
        Seq::empty()
    } else {
        step_actions(steps[0]) + steps_actions(steps.drop_first())
    }
}

/// Each command sent once, in order.
pub open spec fn sends(commands: Seq<Seq<u8>>) -> Seq<ActionView> {
    commands.map_values(|command: Seq<u8>| ActionView::Send(command))
}

/// What is done to show `status`.
pub open spec fn status_actions(protocol: ProtocolView, status: LightStatus) -> Seq<ActionView> {
    match status {
        LightStatus::Red => sends(protocol.red),
        LightStatus::Green => sends(protocol.green),
        LightStatus::RedFlash => steps_actions(protocol.red_flash),
    }
}

/// The actions that are still to be done.
pub struct LightPlan {
    steps: Vec<RuntimeStep>,
    step: usize,
    round: usize,
    inner: usize,
    pause: Option<u64>,
}

impl LightPlan {
    /// The actions that are still to be done, in order.
    pub closed spec fn remaining(&self) -> Seq<ActionView> {
        pause_actions(self.pause) + unfinished(
            step_views(self.steps@),
            self.step as int,
            self.round as int,
            self.inner as int,
        )
    }

    /// The plan that sends each command once, in order.
    pub fn of_commands(commands: &Vec<Vec<u8>>) -> (plan: Self)
        ensures
            plan.remaining() == sends(command_views(commands@)),
    {
        let mut steps: Vec<RuntimeStep> = Vec::new();
        let mut i: usize = 0;
        while i < commands.len()
            invariant
                i <= commands.len(),
                steps.len() == i,
                forall|j: int|
                    0 <= j < i ==> (#[trigger] steps@[j])@ == StepView::Command(commands@[j]@),
            decreases commands.len() - i,
        {
            steps.push(RuntimeStep::Command(copy_bytes(&commands[i])));
            i += 1;
        }
        proof {
            let views = step_views(steps@);
            lemma_unfinished_start(views);
            lemma_commands_actions(views, command_views(commands@));
        }
        LightPlan { steps, step: 0, round: 0, inner: 0, pause: None }
    }

    /// The plan that goes through `steps` in order.
    pub fn of_steps(steps: &Vec<RuntimeStep>) -> (plan: Self)
        ensures
            plan.remaining() == steps_actions(step_views(steps@)),
    {
        let steps = copy_steps(steps);
        proof {
            lemma_unfinished_start(step_views(steps@));
        }
        LightPlan { steps, step: 0, round: 0, inner: 0, pause: None }
    }

    /// Takes the next action off the plan.
    pub fn next(&mut self) -> (action: Option<LightAction>)
        ensures
            match action {
                Some(action) => old(self).remaining().len() > 0 && action@ == old(
                    self,
                ).remaining()[0] && final(self).remaining() == old(self).remaining().drop_first(),
                None => old(self).remaining().len() == 0 && final(self).remaining() == old(
                    self,
                ).remaining(),
            },
    {
        let ghost whole = self.remaining();
        if let Some(ms) = self.pause {
            self.pause = None;
            assert(self.remaining() =~= whole.drop_first());
            return Some(LightAction::Sleep(ms));
        }
        let ghost views = step_views(self.steps@);
        assert(pause_actions(None) + unfinished(
            views,
            self.step as int,
            self.round as int,
            self.inner as int,
        ) =~= unfinished(views, self.step as int, self.round as int, self.inner as int));
        while self.step < self.steps.len()
            invariant
                self.pause is None,
                views == step_views(self.steps@),
                whole == unfinished(views, self.step as int, self.round as int, self.inner as int),
                whole == old(self).remaining(),
            decreases self.steps.len() - self.step, usize::MAX - self.round,
        {
            let ghost at = self.step as int;
            proof {
                lemma_unfinished_start(views.skip(at + 1));
                lemma_unfinished_next(views, at);
            }
            match &self.steps[self.step] {
                RuntimeStep::Command(command) => {
                    let action = LightAction::Send(copy_bytes(command));
                    self.step = self.step + 1;
                    self.round = 0;
                    self.inner = 0;
                    assert(self.remaining() =~= whole.drop_first());
                    return Some(action);
                },
                RuntimeStep::Repeat { repeat, steps } => {
                    let ghost block = repeat_step_views(steps@);
                    if steps.len() == 0 || self.round >= *repeat {
                        proof {
                            if steps.len() == 0 && self.round < *repeat {
                                lemma_times_nothing((*repeat - self.round - 1) as nat);
                                assert(block =~= Seq::<RepeatStepView>::empty());
                                assert(block_rest(block, self.inner as int) =~= Seq::<
                                    ActionView,
                                >::empty());
                                assert(block_actions(block) =~= Seq::<ActionView>::empty());
                            }
                            assert(whole =~= unfinished(views, at + 1, 0, 0));
                        }
                        self.step = self.step + 1;
                        self.round = 0;
                        self.inner = 0;
                    } else if self.inner >= steps.len() {
                        proof {
                            assert(block_rest(block, self.inner as int) =~= Seq::<
                                ActionView,
                            >::empty());
                            assert(block.skip(0) =~= block);
                            assert(whole =~= unfinished(views, at, self.round + 1, 0));
                        }
                        self.round = self.round + 1;
                        self.inner = 0;
                    } else {
                        let action = LightAction::Send(copy_bytes(&steps[self.inner].command));
                        let pause = steps[self.inner].delay_ms;
                        proof {
                            let rest = block.skip(self.inner as int);
                            assert(rest[0] == steps@[self.inner as int]@);
                            assert(rest.drop_first() =~= block.skip(self.inner + 1));
                        }
                        self.pause = pause;
                        self.inner = self.inner + 1;
                        assert(self.remaining() =~= whole.drop_first());
                        return Some(action);
                    }
                },
            }
        }
        assert(self.remaining() =~= whole);
        None
    }

    /// Goes on after an action: a failure ends the plan, and so does its last action.
    pub fn advance<E>(&mut self, last: Result<(), E>) -> (directive: Directive<E>)
        ensures
            match directive {
                Directive::Act(action) => action_after(old(self).remaining(), last is Ok) == Some(
                    action@,
                ) && final(self).remaining() == old(self).remaining().drop_first(),
                Directive::Finish(result) => action_after(old(self).remaining(), last is Ok) is None
                    && result == last && final(self).remaining() == old(self).remaining(),
            },
    {
        if last.is_err() {
            return Directive::Finish(last);
        }
        match self.next() {
            Some(action) => Directive::Act(action),
            None => Directive::Finish(last),
        }
    }
}

/// The action that follows one that succeeded or failed, where `remaining` are left.
pub open spec fn action_after(remaining: Seq<ActionView>, succeeded: bool) -> Option<ActionView> {
    if succeeded && remaining.len() > 0 {
        Some(remaining[0])
    } else {
        None
    }
}

/// The actions that are done of `remaining` after one that succeeded or failed, where `outcomes`
/// tells of each action in turn whether it succeeds.
pub open spec fn performed(
    remaining: Seq<ActionView>,
    succeeded: bool,
    outcomes: Seq<bool>,
) -> Seq<ActionView>
    decreases outcomes.len(),
{
    match action_after(remaining, succeeded) {
        None => Seq::empty(),
        Some(action) => if outcomes.len() == 0 {
            seq![action]
        } else {
            seq![action] + performed(remaining.drop_first(), outcomes[0], outcomes.drop_first())
        },
    }
}

/// The actions are done in order, up to and including the first that fails.
pub proof fn law_actions_stop_at_first_failure(
    actions: Seq<ActionView>,
    outcomes: Seq<bool>,
    failure: int,
)
    requires
        0 <= failure < actions.len(),
        failure < outcomes.len(),
        !outcomes[failure],
        forall|i: int| 0 <= i < failure ==> #[trigger] outcomes[i],
    ensures
        performed(actions, true, outcomes) == actions.take(failure + 1),
    decreases outcomes.len(),
{
    let rest = actions.drop_first();
    let later = outcomes.drop_first();
    if failure == 0 {
        assert(performed(rest, false, later) =~= Seq::<ActionView>::empty());
    } else {
        assert(outcomes[0]);
        law_actions_stop_at_first_failure(rest, later, failure - 1);
    }
    assert(performed(actions, true, outcomes) =~= actions.take(failure + 1));
}

/// Where no action fails, all of them are done in order.
pub proof fn law_all_actions_are_done(actions: Seq<ActionView>, outcomes: Seq<bool>)
    requires
        outcomes.len() >= actions.len(),
        forall|i: int| 0 <= i < actions.len() ==> #[trigger] outcomes[i],
    ensures
        performed(actions, true, outcomes) == actions,
    decreases actions.len(),
{
    if actions.len() > 0 {
        assert(outcomes[0]);
        law_all_actions_are_done(actions.drop_first(), outcomes.drop_first());
        assert(performed(actions, true, outcomes) =~= actions);
    }
}

/// The commands that the four basic texts stand for.
pub open spec fn basic_commands(config: BasicLightCommandConfig) -> Set<Seq<u8>> {
    set![
        command_bytes(config.green_light_off@)->0,
        command_bytes(config.green_light_on@)->0,
        command_bytes(config.red_light_on@)->0,
        command_bytes(config.red_light_off@)->0,
    ]
}

/// Whether all commands sent are among `commands`.
pub open spec fn sends_only(actions: Seq<ActionView>, commands: Set<Seq<u8>>) -> bool {
    forall|i: int|
        0 <= i < actions.len() ==> (#[trigger] actions[i] matches ActionView::Send(command)
            ==> commands.contains(command))
}

pub(crate) proof fn lemma_sends_only_concat(
    a: Seq<ActionView>,
    b: Seq<ActionView>,
    commands: Set<Seq<u8>>,
)
    requires
        sends_only(a, commands),
        sends_only(b, commands),
    ensures
        sends_only(a + b, commands),
{
    let both = a + b;
    assert forall|i: int| 0 <= i < both.len() implies (#[trigger] both[i] matches ActionView::Send(
        command,
    ) ==> commands.contains(command)) by {
        if i < a.len() {
            assert(both[i] == a[i]);
        } else {
            assert(both[i] == b[i - a.len()]);
        }
    }
}

proof fn lemma_block_sends_only(steps: Seq<RepeatStepView>, commands: Set<Seq<u8>>)
    requires
        forall|i: int| 0 <= i < steps.len() ==> commands.contains(#[trigger] steps[i].command),
    ensures
        sends_only(block_actions(steps), commands),
    decreases steps.len(),
{
    if steps.len() > 0 {
        let rest = steps.drop_first();
        assert forall|i: int| 0 <= i < rest.len() implies commands.contains(
            #[trigger] rest[i].command,
        ) by {
            assert(rest[i] == steps[i + 1]);
        }
        lemma_block_sends_only(rest, commands);
        let head = seq![ActionView::Send(steps[0].command)] + pause_actions(steps[0].delay_ms);
        assert(sends_only(head, commands));
        lemma_sends_only_concat(head, block_actions(rest), commands);
    }
}

pub(crate) proof fn lemma_times_sends_only(
    count: nat,
    actions: Seq<ActionView>,
    commands: Set<Seq<u8>>,
)
    requires
        sends_only(actions, commands),
    ensures
        sends_only(times(count, actions), commands),
    decreases count,
{
    if count > 0 {
        lemma_times_sends_only((count - 1) as nat, actions, commands);
        lemma_sends_only_concat(actions, times((count - 1) as nat, actions), commands);
    }
}

/// Whether the commands of a step are all among `commands`.
spec fn step_sends_only(step: StepView, commands: Set<Seq<u8>>) -> bool {
    match step {
        StepView::Command(command) => commands.contains(command),
        StepView::Repeat { repeat, steps } => forall|i: int|
            0 <= i < steps.len() ==> commands.contains(#[trigger] steps[i].command),
    }
}

proof fn lemma_steps_send_only(steps: Seq<StepView>, commands: Set<Seq<u8>>)
    requires
        forall|i: int| 0 <= i < steps.len() ==> step_sends_only(#[trigger] steps[i], commands),
    ensures
        sends_only(steps_actions(steps), commands),
    decreases steps.len(),
{
    if steps.len() > 0 {
        let rest = steps.drop_first();
        assert forall|i: int| 0 <= i < rest.len() implies step_sends_only(
            #[trigger] rest[i],
            commands,
        ) by {
            assert(rest[i] == steps[i + 1]);
        }
        lemma_steps_send_only(rest, commands);
        assert(step_sends_only(steps[0], commands));
        match steps[0] {
            StepView::Command(_) => {},
            StepView::Repeat { repeat, steps: block } => {
                lemma_block_sends_only(block, commands);
                lemma_times_sends_only(repeat, block_actions(block), commands);
            },
        }
        lemma_sends_only_concat(step_actions(steps[0]), steps_actions(rest), commands);
    }
}

proof fn lemma_named_command(config: BasicLightCommandConfig, name: Seq<char>)
    requires
        basic_table(config) is Ok,
        named_command(basic_table(config)->Ok_0, name) is Ok,
    ensures
        basic_commands(config).contains(named_command(basic_table(config)->Ok_0, name)->Ok_0),
{
}

/// Whatever status is shown, only the four basic commands are ever sent.
pub proof fn law_only_basic_commands_are_sent(config: LightCommandConfig, status: LightStatus)
    requires
        protocol_of(config) is Ok,
    ensures
        sends_only(
            status_actions(protocol_of(config)->Ok_0, status),
            basic_commands(config.basic),
        ),
{
    let table = basic_table(config.basic)->Ok_0;
    let commands = basic_commands(config.basic);
    let protocol = protocol_of(config)->Ok_0;
    let simple = sequence_item(table);
    match status {
        LightStatus::Red => {
            lemma_collect_items(config.composite.red@, simple);
            assert forall|i: int| 0 <= i < protocol.red.len() implies commands.contains(
                #[trigger] protocol.red[i],
            ) by {
                assert(simple(config.composite.red@[i]) is Ok);
                lemma_named_command(config.basic, config.composite.red@[i]->command@);
            }
        },
        LightStatus::Green => {
            lemma_collect_items(config.composite.green@, simple);
            assert forall|i: int| 0 <= i < protocol.green.len() implies commands.contains(
                #[trigger] protocol.green[i],
            ) by {
                assert(simple(config.composite.green@[i]) is Ok);
                lemma_named_command(config.basic, config.composite.green@[i]->command@);
            }
        },
        LightStatus::RedFlash => {
            let items = config.composite.red_flash@;
            lemma_collect_items(items, step_item(table));
            assert forall|i: int| 0 <= i < protocol.red_flash.len() implies step_sends_only(
                #[trigger] protocol.red_flash[i],
                commands,
            ) by {
                assert(step_item(table)(items[i]) is Ok);
                match items[i] {
                    CompositeItemConfig::Command { command } => {
                        lemma_named_command(config.basic, command@);
                    },
                    CompositeItemConfig::Repeat { repeat, steps } => {
                        lemma_collect_items(steps@, repeat_item(table));
                        let block = collect(steps@, repeat_item(table))->Ok_0;
                        assert forall|j: int| 0 <= j < block.len() implies commands.contains(
                            #[trigger] block[j].command,
                        ) by {
                            assert(repeat_item(table)(steps@[j]) is Ok);
                            lemma_named_command(config.basic, steps@[j].command@);
                        }
                    },
                }
            }
            lemma_steps_send_only(protocol.red_flash, commands);
        },
    }
}

/// What is left of one pass through a block from its step `inner` on.
spec fn block_rest(block: Seq<RepeatStepView>, inner: int) -> Seq<ActionView> {
    if 0 <= inner <= block.len() {
        block_actions(block.skip(inner))
    } else {
        Seq::empty()
    }
}

/// What is left of `steps` from step `at` on, of which `round` passes and `inner` steps of the
/// next pass are done.
spec fn unfinished(steps: Seq<StepView>, at: int, round: int, inner: int) -> Seq<ActionView> {
    if 0 <= at < steps.len() {
        (match steps[at] {
            StepView::Command(command) => seq![ActionView::Send(command)],
            StepView::Repeat { repeat, steps: block } => if 0 <= round < repeat {
                block_rest(block, inner) + times((repeat - round - 1) as nat, block_actions(block))
            } else {
                Seq::empty()
            },
        }) + steps_actions(steps.skip(at + 1))
    } else {
        Seq::empty()
    }
}

proof fn lemma_unfinished_start(steps: Seq<StepView>)
    ensures
        unfinished(steps, 0, 0, 0) == steps_actions(steps),
{
    if steps.len() > 0 {
        assert(steps.skip(1) =~= steps.drop_first());
        match steps[0] {
            StepView::Command(_) => {},
            StepView::Repeat { repeat, steps: block } => {
                assert(block.skip(0) =~= block);
            },
        }
    }
}

proof fn lemma_unfinished_next(steps: Seq<StepView>, at: int)
    requires
        0 <= at < steps.len(),
    ensures
        unfinished(steps, at + 1, 0, 0) == steps_actions(steps.skip(at + 1)),
{
    let rest = steps.skip(at + 1);
    lemma_unfinished_start(rest);
    if at + 1 < steps.len() {
        assert(rest[0] == steps[at + 1]);
        assert(rest.skip(1) =~= steps.skip(at + 2));
    }
}

proof fn lemma_times_nothing(count: nat)
    ensures
        times(count, Seq::<ActionView>::empty()) == Seq::<ActionView>::empty(),
    decreases count,
{
    if count > 0 {
        lemma_times_nothing((count - 1) as nat);
    }
}

proof fn lemma_commands_actions(steps: Seq<StepView>, commands: Seq<Seq<u8>>)
    requires
        steps.len() == commands.len(),
        forall|j: int|
            0 <= j < steps.len() ==> #[trigger] steps[j] == StepView::Command(commands[j]),
    ensures
        steps_actions(steps) == sends(commands),
    decreases steps.len(),
{
    if steps.len() > 0 {
        lemma_commands_actions(steps.drop_first(), commands.drop_first());
        assert(steps[0] == StepView::Command(commands[0]));
        assert(steps_actions(steps) =~= sends(commands));
    } else {
        assert(sends(commands) =~= Seq::<ActionView>::empty());
    }
}

} // verus!
