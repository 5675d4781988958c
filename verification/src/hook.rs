//! The life of the classification hooks: the rules that attach and detach
//! them, and the order in which what was acquired is given back.

use crate::agent::Direction;
use crate::command::{
    arg_views, get_command_output, get_command_str, joined, verdict, CommandError, Exit, Failure,
    Output,
};
use vstd::prelude::*;
use vstd::string::StringExecFns;

verus! {

/// The words that `shell_words::split` makes of a text, or `None` where it
/// gives an error.
pub uninterp spec fn shell_split(text: Seq<char>) -> Option<Seq<Seq<char>>>;

/// Whether a text holds no quote character.
pub open spec fn quote_free(text: Seq<char>) -> bool {
    forall|i: int| 0 <= i < text.len() ==> text[i] != '\'' && text[i] != '"'
}

/// Calls `shell_words::split`. The words depend on the text alone. The only
/// error of the splitter is a quote that is never closed, so a text without
/// quote characters always splits.
#[verifier::external_body]
fn split_words(text: &str) -> (words: Option<Vec<String>>)
    ensures
        words matches Some(w) ==> shell_split(text@) == Some(arg_views(w@)),
        words is None ==> shell_split(text@) is None,
        quote_free(text@) ==> words is Some,
{
    shell_words::split(text).ok()
}

/// One rule of the traffic control configuration: the text that adds it,
/// the text that deletes it again, and whether this process has added it.
#[derive(Debug)]
pub struct TcRule {
    add_rule: String,
    del_rule: Option<String>,
    loaded: bool,
}

/// The mathematical value of a [`TcRule`].
pub struct TcRuleView {
    /// The arguments that add the rule, as one text.
    pub add_rule: Seq<char>,
    /// The arguments that delete the rule, if it is ever to be deleted.
    pub del_rule: Option<Seq<char>>,
    /// Whether this process has added the rule and not yet deleted it.
    pub loaded: bool,
}

/// Why attaching a hook came to nothing.
#[derive(Debug)]
pub enum AttachError {
    /// The text of the rule does not split into arguments.
    Malformed,
    /// The command that adds the rule failed.
    Failed(CommandError),
    /// The table of the hook could not be opened.
    TableUnavailable,
}

/// The mathematical value of an [`AttachError`].
pub enum AttachErrorView {
    Malformed,
    Failed { failure: Failure, detail: Seq<char> },
    TableUnavailable,
}

impl View for AttachError {
    type V = AttachErrorView;

    open spec fn view(&self) -> AttachErrorView {
        match self {
            AttachError::Malformed => AttachErrorView::Malformed,
            AttachError::Failed(e) => AttachErrorView::Failed {
                failure: e.failure,
                detail: e.detail@,
            },
            AttachError::TableUnavailable => AttachErrorView::TableUnavailable,
        }
    }
}

impl TcRuleView {
    /// What stands in the way of the rule when the command that adds it
    /// ended with `status`: a text that does not split, or a command that
    /// failed, named as `tc` with its arguments. `None` where the rule was
    /// added.
    pub open spec fn apply_error(self, status: Exit) -> Option<AttachErrorView> {
        match shell_split(self.add_rule) {
            None => Some(AttachErrorView::Malformed),
            Some(args) => match verdict(status) {
                None => None,
                Some(failure) => Some(
                    AttachErrorView::Failed { failure, detail: joined("tc"@, args) },
                ),
            },
        }
    }

    /// The rule after the command that adds it ended with `status`: loaded
    /// where nothing stood in the way, and unchanged where something did.
    pub open spec fn applied(self, status: Exit) -> TcRuleView {
        if self.apply_error(status) is None {
            TcRuleView { loaded: true, ..self }
        } else {
            self
        }
    }

    /// The arguments of the command that deletes the rule, where there is
    /// anything to delete: the rule is loaded, has a text that deletes it,
    /// and that text splits.
    pub open spec fn del_args(self) -> Option<Seq<Seq<char>>> {
        if self.loaded && self.del_rule is Some {
            shell_split(self.del_rule->0)
        } else {
            None
        }
    }
}

/// The rule that creates the classifier hook of an interface, not loaded.
pub open spec fn qdisc_rule(iface: Seq<char>) -> TcRuleView {
    TcRuleView {
        add_rule: qdisc_add_text(iface),
        del_rule: Some(qdisc_del_text(iface)),
        loaded: false,
    }
}

/// The rule that installs the program of one direction, not loaded.
pub open spec fn filter_rule(
    iface: Seq<char>,
    direction: Direction,
    object_file: Seq<char>,
) -> TcRuleView {
    let rest = filter_text(
        iface,
        direction.datapath_name(),
        object_file,
        direction.section_name(),
    );
    TcRuleView {
        add_rule: "filter add"@ + rest,
        del_rule: Some("filter del"@ + rest),
        loaded: false,
    }
}

impl View for TcRule {
    type V = TcRuleView;

    closed spec fn view(&self) -> TcRuleView {
        TcRuleView {
            add_rule: self.add_rule@,
            del_rule: match self.del_rule {
                Some(d) => Some(d@),
                None => None,
            },
            loaded: self.loaded,
        }
    }
}

/// The text that adds the classifier hook to an interface.
pub open spec fn qdisc_add_text(iface: Seq<char>) -> Seq<char> {
    "qdisc add dev "@ + iface + " clsact"@
}

/// The text that removes the classifier hook from an interface.
pub open spec fn qdisc_del_text(iface: Seq<char>) -> Seq<char> {
    "qdisc del dev "@ + iface + " clsact"@
}

/// The text that follows `filter add` or `filter del` for the program of
/// one direction.
pub open spec fn filter_text(
    iface: Seq<char>,
    datapath: Seq<char>,
    object_file: Seq<char>,
    section: Seq<char>,
) -> Seq<char> {
    " dev "@ + iface + " "@ + datapath + " prio 49152 bpf direct-action object-file "@
        + object_file + " section "@ + section
}

impl Direction {
    /// The name of the direction in a rule.
    pub open spec fn datapath_name(self) -> Seq<char> {
        match self {
            Direction::Ingress => "ingress"@,
            Direction::Egress => "egress"@,
        }
    }

    /// The section of the object file that holds the program of the
    /// direction.
    pub open spec fn section_name(self) -> Seq<char> {
        match self {
            Direction::Ingress => "tc_action/nethint_count_ingress"@,
            Direction::Egress => "tc_action/nethint_count_egress"@,
        }
    }

    /// The path at which the table of the direction is pinned once its
    /// program is attached.
    pub open spec fn pin_path_name(self) -> Seq<char> {
        match self {
            Direction::Ingress => "/sys/fs/bpf/tc/globals/flow_map_ingress"@,
            Direction::Egress => "/sys/fs/bpf/tc/globals/flow_map_egress"@,
        }
    }

    /// The name of the direction in a rule.
    pub fn datapath(self) -> (name: &'static str)
        ensures
            name@ == self.datapath_name(),
    {
        match self {
            Direction::Ingress => "ingress",
            Direction::Egress => "egress",
        }
    }

    /// The section of the object file that holds the program of the
    /// direction.
    pub fn section(self) -> (name: &'static str)
        ensures
            name@ == self.section_name(),
    {
        match self {
            Direction::Ingress => "tc_action/nethint_count_ingress",
            Direction::Egress => "tc_action/nethint_count_egress",
        }
    }

    /// The path at which the table of the direction is pinned once its
    /// program is attached.
    pub fn pin_path(self) -> (path: &'static str)
        ensures
            path@ == self.pin_path_name(),
    {
        match self {
            Direction::Ingress => "/sys/fs/bpf/tc/globals/flow_map_ingress",
            Direction::Egress => "/sys/fs/bpf/tc/globals/flow_map_egress",
        }
    }
}

impl TcRule {
    /// A rule that is not loaded yet.
    pub fn new(add: &str, del: Option<&str>) -> (rule: TcRule)
        ensures
            rule@ == (TcRuleView {
                add_rule: add@,
                del_rule: match del {
                    Some(d) => Some(d@),
                    None => None,
                },
                loaded: false,
            }),
    {
        let del_rule = match del {
            Some(d) => Some(String::from_str(d)),
            None => None,
        };
        TcRule { add_rule: String::from_str(add), del_rule, loaded: false }
    }

    /// The rule that creates the classifier hook of an interface.
    pub fn qdisc(iface: &str) -> (rule: TcRule)
        ensures
            rule@ == qdisc_rule(iface@),
    {
        let mut add = String::from_str("qdisc add dev ");
        add.append(iface);
        add.append(" clsact");
        let mut del = String::from_str("qdisc del dev ");
        del.append(iface);
        del.append(" clsact");
        TcRule { add_rule: add, del_rule: Some(del), loaded: false }
    }

    /// The rule that installs the program of one direction on an interface
    /// at the fixed priority.
    pub fn filter(iface: &str, direction: Direction, object_file: &str) -> (rule: TcRule)
        ensures
            rule@ == filter_rule(iface@, direction, object_file@),
    {
        let mut add = String::from_str("filter add");
        push_filter_text(&mut add, iface, direction, object_file);
        let mut del = String::from_str("filter del");
        push_filter_text(&mut del, iface, direction, object_file);
        TcRule { add_rule: add, del_rule: Some(del), loaded: false }
    }

    /// Whether this process has added the rule and not yet deleted it.
    pub fn is_loaded(&self) -> (loaded: bool)
        ensures
            loaded == self@.loaded,
    {
        self.loaded
    }

    /// The arguments of the `tc` command that adds the rule, or `None`
    /// where the text of the rule does not split.
    pub fn add_command(&self) -> (args: Option<Vec<String>>)
        ensures
            args matches Some(a) ==> shell_split(self@.add_rule) == Some(arg_views(a@)),
            args is None ==> shell_split(self@.add_rule) is None,
            quote_free(self@.add_rule) ==> args is Some,
    {
        split_words(self.add_rule.as_str())
    }

    /// Takes note of how the command that adds the rule ended. The rule is
    /// loaded from now on where the command exited with code zero; where it
    /// failed, the rule stays as it was and the error names the command.
    pub fn apply(&mut self, output: Output) -> (result: Result<(), AttachError>)
        ensures
            final(self)@ == old(self)@.applied(output.status),
            match result {
                Ok(_) => old(self)@.apply_error(output.status) is None,
                Err(e) => old(self)@.apply_error(output.status) == Some(e@),
            },
            quote_free(old(self)@.add_rule) ==> shell_split(old(self)@.add_rule) is Some,
    {
        match split_words(self.add_rule.as_str()) {
            None => Err(AttachError::Malformed),
            Some(args) => {
                let cmd_str = get_command_str("tc", &args);
                match get_command_output(cmd_str.as_str(), output) {
                    Ok(_) => {
                        self.loaded = true;
                        Ok(())
                    },
                    Err(e) => Err(AttachError::Failed(e)),
                }
            },
        }
    }

    /// Gives the rule up. Where this process has added the rule and knows
    /// how to delete it, the arguments of the `tc` command that deletes it
    /// come back, once: the rule is not loaded afterwards, so a second call
    /// asks for nothing.
    pub fn detach(&mut self) -> (args: Option<Vec<String>>)
        ensures
            final(self)@ == (TcRuleView { loaded: false, ..old(self)@ }),
            args matches Some(a) ==> old(self)@.del_args() == Some(arg_views(a@)),
            args is None ==> old(self)@.del_args() is None,
    {
        if !self.loaded {
            return None;
        }
        self.loaded = false;
        match &self.del_rule {
            None => None,
            Some(del_rule) => split_words(del_rule.as_str()),
        }
    }
}

/// Something that this process has acquired and has to give back.
#[derive(Debug)]
pub enum Resource {
    /// A rule of the traffic control configuration.
    Rule(TcRule),
    /// A table that is pinned at this path.
    Table(String),
}

/// The mathematical value of a [`Resource`].
pub enum ResourceView {
    Rule(TcRuleView),
    Table(Seq<char>),
}

/// One step of giving back what was acquired.
#[derive(Debug)]
pub enum Release {
    /// Run `tc` with these arguments to delete a rule.
    Detach(Vec<String>),
    /// Remove the pin at this path.
    Unpin(String),
}

/// The mathematical value of a [`Release`].
pub enum ReleaseView {
    Detach(Seq<Seq<char>>),
    Unpin(Seq<char>),
}

impl View for Resource {
    type V = ResourceView;

    open spec fn view(&self) -> ResourceView {
        match self {
            Resource::Rule(rule) => ResourceView::Rule(rule@),
            Resource::Table(path) => ResourceView::Table(path@),
        }
    }
}

impl View for Release {
    type V = ReleaseView;

    open spec fn view(&self) -> ReleaseView {
        match self {
            Release::Detach(args) => ReleaseView::Detach(arg_views(args@)),
            Release::Unpin(path) => ReleaseView::Unpin(path@),
        }
    }
}

/// The values of a list of resources.
pub open spec fn resource_views(held: Seq<Resource>) -> Seq<ResourceView> {
    Seq::new(held.len(), |i: int| held[i]@)
}

/// The values of a list of releases.
pub open spec fn release_views(steps: Seq<Release>) -> Seq<ReleaseView> {
    Seq::new(steps.len(), |i: int| steps[i]@)
}

/// What giving back one resource takes: a pinned table is unpinned; a rule
/// is deleted where there is anything to delete, and else left alone.
pub open spec fn release_of(resource: ResourceView) -> Option<ReleaseView> {
    match resource {
        ResourceView::Rule(rule) => match rule.del_args() {
            Some(args) => Some(ReleaseView::Detach(args)),
            None => None,
        },
        ResourceView::Table(path) => Some(ReleaseView::Unpin(path)),
    }
}

/// The steps that give back all of `held`, which lists the resources in the
/// order in which they were acquired: the last one goes first.
pub open spec fn plan(held: Seq<ResourceView>) -> Seq<ReleaseView>
    decreases held.len(),
{
    if held.len() == 0 {
        Seq::empty()
    } else {
        match release_of(held.last()) {
            Some(step) => seq![step] + plan(held.drop_last()),
            None => plan(held.drop_last()),
        }
    }
}

/// What was acquired later is given back first, all of it: the plan for two
/// runs of acquisitions is the plan for the second followed by the plan for
/// the first.
pub proof fn lemma_plan_concat(first: Seq<ResourceView>, second: Seq<ResourceView>)
    ensures
        plan(first + second) == plan(second) + plan(first),
    decreases second.len(),
{
    if second.len() == 0 {
        assert(first + second =~= first);
        assert(plan(second) + plan(first) =~= plan(first));
    } else {
        let all = first + second;
        assert(all.last() == second.last());
        assert(all.drop_last() =~= first + second.drop_last());
        lemma_plan_concat(first, second.drop_last());
        match release_of(second.last()) {
            Some(step) => {
                assert(plan(all) =~= (seq![step] + plan(second.drop_last())) + plan(first));
            },
            None => {},
        }
    }
}

/// A table that was pinned after its rule was loaded is unpinned before the
/// rule is deleted.
pub proof fn lemma_table_before_rule(rule: TcRuleView, path: Seq<char>)
    requires
        rule.del_args() is Some,
    ensures
        plan(seq![ResourceView::Rule(rule), ResourceView::Table(path)]) == seq![
            ReleaseView::Unpin(path),
            ReleaseView::Detach(rule.del_args()->0),
        ],
{
    let held = seq![ResourceView::Rule(rule), ResourceView::Table(path)];
    assert(held.drop_last() =~= seq![ResourceView::Rule(rule)]);
    assert(held.drop_last().drop_last() =~= Seq::<ResourceView>::empty());
    reveal_with_fuel(plan, 3);
    assert(plan(held) =~= seq![
        ReleaseView::Unpin(path),
        ReleaseView::Detach(rule.del_args()->0),
    ]);
}

/// Nothing is given back twice: a rule that was given up has nothing left
/// to delete, and when nothing is held any more there is no step to take.
pub proof fn lemma_released_once(rule: TcRuleView)
    ensures
        (TcRuleView { loaded: false, ..rule }).del_args() is None,
        plan(Seq::<ResourceView>::empty()) == Seq::<ReleaseView>::empty(),
{
}

/// What this process has acquired, in the order of acquisition, so that a
/// shutdown can give it back in the reverse order.
#[derive(Debug)]
pub struct Teardown {
    held: Vec<Resource>,
}

impl View for Teardown {
    type V = Seq<ResourceView>;

    closed spec fn view(&self) -> Seq<ResourceView> {
        resource_views(self.held@)
    }
}

impl Teardown {
    /// Nothing acquired yet.
    pub fn new() -> (teardown: Teardown)
        ensures
            teardown@ == Seq::<ResourceView>::empty(),
    {
        let teardown = Teardown { held: Vec::new() };
        assert(teardown@ =~= Seq::<ResourceView>::empty());
        teardown
    }

    /// The number of resources that are still to give back.
    pub fn len(&self) -> (n: usize)
        ensures
            n == self@.len(),
    {
        self.held.len()
    }

    /// Takes charge of a rule, loaded or not.
    pub fn hold_rule(&mut self, rule: TcRule)
        ensures
            final(self)@ == old(self)@.push(ResourceView::Rule(rule@)),
    {
        self.held.push(Resource::Rule(rule));
        assert(self@ =~= old(self)@.push(ResourceView::Rule(rule@)));
    }

    /// Takes charge of the table that is pinned at `path`.
    pub fn hold_table(&mut self, path: &str)
        ensures
            final(self)@ == old(self)@.push(ResourceView::Table(path@)),
    {
        self.held.push(Resource::Table(String::from_str(path)));
        assert(self@ =~= old(self)@.push(ResourceView::Table(path@)));
    }

    /// Gives everything back: the steps come out in the reverse order of
    /// acquisition, and nothing is held afterwards, so that a second
    /// shutdown has no step left. The caller carries out every step, also
    /// after one of them has failed.
    pub fn shutdown(&mut self) -> (steps: Vec<Release>)
        ensures
            final(self)@ == Seq::<ResourceView>::empty(),
            release_views(steps@) == plan(old(self)@),
            steps@.len() == plan(old(self)@).len(),
    {
        let mut steps: Vec<Release> = Vec::new();
        loop
            invariant
                release_views(steps@) + plan(self@) == plan(old(self)@),
            ensures
                self@.len() == 0,
                release_views(steps@) == plan(old(self)@),
            decreases self.held@.len(),
        {
            let ghost before = self@;
            let ghost done = release_views(steps@);
            match self.held.pop() {
                None => {
                    assert(plan(self@) =~= Seq::<ReleaseView>::empty());
                    assert(release_views(steps@) =~= release_views(steps@) + plan(self@));
                    break ;
                },
                Some(resource) => {
                    assert(self@ =~= before.drop_last());
                    assert(resource@ == before.last());
                    match resource {
                        Resource::Rule(mut rule) => {
                            match rule.detach() {
                                Some(args) => {
                                    steps.push(Release::Detach(args));
                                    assert(release_views(steps@) =~= done + seq![
                                        release_of(before.last())->0,
                                    ]);
                                },
                                None => {},
                            }
                        },
                        Resource::Table(path) => {
                            steps.push(Release::Unpin(path));
                            assert(release_views(steps@) =~= done + seq![
                                release_of(before.last())->0,
                            ]);
                        },
                    }
                    assert(release_views(steps@) + plan(self@) =~= done + plan(before));
                },
            }
        }
        assert(self@ =~= Seq::<ResourceView>::empty());
        steps
    }
}

fn push_filter_text(out: &mut String, iface: &str, direction: Direction, object_file: &str)
    ensures
        final(out)@ == old(out)@ + filter_text(
            iface@,
            direction.datapath_name(),
            object_file@,
            direction.section_name(),
        ),
{
    out.append(" dev ");
    out.append(iface);
    out.append(" ");
    out.append(direction.datapath());
    out.append(" prio 49152 bpf direct-action object-file ");
    out.append(object_file);
    out.append(" section ");
    out.append(direction.section());
    assert(out@ =~= old(out)@ + filter_text(
        iface@,
        direction.datapath_name(),
        object_file@,
        direction.section_name(),
    ));
}

} // verus!
