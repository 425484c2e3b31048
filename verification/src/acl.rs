//! Access control rules that are managed at run time. A rule is enforced from
//! the next request on, and every change is recorded in an audit trail.

use crate::clock;
use crate::clock::Timestamp;
use crate::strmap::StrMap;
use crate::text;
use crate::text::{copied, eq_ignore_case, starts_with, str_eq};
use vstd::prelude::*;
use vstd::string::*;

verus! {

/// The effect of a matching ACL rule.
#[derive(Debug, Clone, Copy, PartialEq, Eq, Structural)]
pub enum AclEffect {
    Allow,
    Deny,
}

impl AclEffect {
    /// The name of the effect.
    pub open spec fn label(self) -> Seq<char> {
        match self {
            AclEffect::Allow => "Allow"@,
            AclEffect::Deny => "Deny"@,
        }
    }

    /// The name of the effect.
    pub fn name(&self) -> (r: &'static str)
        ensures
            r@ == self.label(),
    {
        match self {
            AclEffect::Allow => "Allow",
            AclEffect::Deny => "Deny",
        }
    }
}

/// A single dynamic ACL rule. `"*"` is a wildcard for subject/resource/action.
#[derive(Debug)]
pub struct AclRule {
    pub id: String,
    pub subject: String,
    pub resource: String,
    pub action: String,
    pub effect: AclEffect,
    pub created_at: Timestamp,
    pub created_by: Option<String>,
}

impl Clone for AclRule {
    fn clone(&self) -> (r: Self)
        ensures
            r == *self,
    {
        AclRule {
            id: self.id.clone(),
            subject: self.subject.clone(),
            resource: self.resource.clone(),
            action: self.action.clone(),
            effect: self.effect,
            created_at: self.created_at,
            created_by: copied(&self.created_by),
        }
    }
}

/// One entry in the ACL audit trail.
#[derive(Debug)]
pub struct AclAuditEntry {
    pub id: String,
    pub timestamp: Timestamp,
    pub operation: String,
    pub rule_id: String,
    pub actor: Option<String>,
    pub detail: String,
}

impl Clone for AclAuditEntry {
    fn clone(&self) -> (r: Self)
        ensures
            r == *self,
    {
        AclAuditEntry {
            id: self.id.clone(),
            timestamp: self.timestamp,
            operation: self.operation.clone(),
            rule_id: self.rule_id.clone(),
            actor: copied(&self.actor),
            detail: self.detail.clone(),
        }
    }
}

/// A request for a new rule.
#[derive(Debug)]
pub struct CreateAclRuleRequest {
    pub subject: String,
    pub resource: String,
    pub action: String,
    pub effect: AclEffect,
    pub actor: Option<String>,
}

/// The rules in force and the trail of their changes.
pub struct AclStore {
    rules: Vec<AclRule>,
    audit_log: Vec<AclAuditEntry>,
}

/// What there is to know of a store.
pub struct AclModel {
    pub rules: Seq<AclRule>,
    pub audit_log: Seq<AclAuditEntry>,
}

impl View for AclStore {
    type V = AclModel;

    closed spec fn view(&self) -> AclModel {
        AclModel { rules: self.rules@, audit_log: self.audit_log@ }
    }
}

/// Whether a rule speaks of a request: its subject is the requester's, its
/// resource a beginning of the requested one, its action the requested one in
/// any case of letters, and an asterisk stands for anything.
pub open spec fn governs(
    rule: AclRule,
    subject: Seq<char>,
    resource: Seq<char>,
    action: Seq<char>,
) -> bool {
    &&& rule.subject@ == "*"@ || rule.subject@ == subject
    &&& rule.resource@ == "*"@ || text::has_prefix(resource, rule.resource@)
    &&& rule.action@ == "*"@ || text::same_ignoring_case(rule.action@, action)
}

/// Whether a request is allowed under the rules: no deny rule speaks of it.
pub open spec fn allowed(
    rules: Seq<AclRule>,
    subject: Seq<char>,
    resource: Seq<char>,
    action: Seq<char>,
) -> bool {
    !exists|i: int|
        0 <= i < rules.len() && (#[trigger] rules[i]).effect == AclEffect::Deny && governs(
            rules[i],
            subject,
            resource,
            action,
        )
}

/// The rules without those of the given ID.
pub open spec fn without(rules: Seq<AclRule>, id: Seq<char>) -> Seq<AclRule> {
    rules.filter(|r: AclRule| r.id@ != id)
}

/// How the audit trail words a new rule.
pub open spec fn rule_detail(r: AclRule) -> Seq<char> {
    "subject="@ + r.subject@ + " resource="@ + r.resource@ + " action="@ + r.action@ + " effect="@
        + r.effect.label()
}

/// Whether `after` is `before` with the rule `rule` added on request.
pub open spec fn rule_added(
    before: AclModel,
    after: AclModel,
    req: CreateAclRuleRequest,
    rule: AclRule,
) -> bool {
    &&& rule.subject == req.subject
    &&& rule.resource == req.resource
    &&& rule.action == req.action
    &&& rule.effect == req.effect
    &&& rule.created_by == req.actor
    &&& after.rules == before.rules.push(rule)
    &&& after.audit_log.len() == before.audit_log.len() + 1
    &&& after.audit_log.drop_last() == before.audit_log
    &&& after.audit_log.last().operation@ == "add"@
    &&& after.audit_log.last().rule_id@ == rule.id@
    &&& after.audit_log.last().actor == req.actor
    &&& after.audit_log.last().detail@ == rule_detail(rule)
}

/// Whether `after` is `before` without the rules of the given ID. The audit
/// trail grows by one entry when there were any, and not at all otherwise.
pub open spec fn rule_removed(
    before: AclModel,
    after: AclModel,
    id: Seq<char>,
    actor: Option<String>,
    removed: bool,
) -> bool {
    &&& after.rules == without(before.rules, id)
    &&& removed == exists|i: int| 0 <= i < before.rules.len() && (#[trigger] before.rules[i]).id@ == id
    &&& if removed {
        &&& after.audit_log.len() == before.audit_log.len() + 1
        &&& after.audit_log.drop_last() == before.audit_log
        &&& after.audit_log.last().operation@ == "remove"@
        &&& after.audit_log.last().rule_id@ == id
        &&& after.audit_log.last().actor == actor
        &&& after.audit_log.last().detail@ == "rule "@ + id + " removed"@
    } else {
        after.audit_log == before.audit_log
    }
}

impl AclStore {
    /// A store without rules.
    pub fn new() -> (r: Self)
        ensures
            r@.rules == Seq::<AclRule>::empty(),
            r@.audit_log == Seq::<AclAuditEntry>::empty(),
    {
        AclStore { rules: Vec::new(), audit_log: Vec::new() }
    }

    /// Adds a rule under a fresh ID and returns it.
    pub fn add_rule(&mut self, req: CreateAclRuleRequest) -> (r: AclRule)
        ensures
            rule_added(old(self)@, final(self)@, req, r),
            r.id@.len() == 36,
            final(self)@.audit_log.last().id@.len() == 36,
            final(self)@.audit_log.last().timestamp == r.created_at,
    {
        let id = clock::fresh_id();
        let audit_id = clock::fresh_id();
        self.add_rule_as(req, id, audit_id, Timestamp::now())
    }

    /// Adds a rule under the given ID at `now` and returns it.
    pub fn add_rule_as(
        &mut self,
        req: CreateAclRuleRequest,
        id: String,
        audit_id: String,
        now: Timestamp,
    ) -> (r: AclRule)
        ensures
            rule_added(old(self)@, final(self)@, req, r),
            r.id == id,
            r.created_at == now,
            final(self)@.audit_log.last().id == audit_id,
            final(self)@.audit_log.last().timestamp == now,
    {
        let actor = copied(&req.actor);
        let rule = AclRule {
            id,
            subject: req.subject,
            resource: req.resource,
            action: req.action,
            effect: req.effect,
            created_at: now,
            created_by: req.actor,
        };
        let mut detail = "subject=".to_owned();
        detail.append(rule.subject.as_str());
        detail.append(" resource=");
        detail.append(rule.resource.as_str());
        detail.append(" action=");
        detail.append(rule.action.as_str());
        detail.append(" effect=");
        detail.append(rule.effect.name());
        self.rules.push(rule.clone());
        self.audit_log.push(
            AclAuditEntry {
                id: audit_id,
                timestamp: now,
                operation: "add".to_owned(),
                rule_id: rule.id.clone(),
                actor,
                detail,
            },
        );
        assert(self.audit_log@.drop_last() =~= old(self).audit_log@);
        rule
    }

    /// Removes the rules of the given ID. Tells whether there were any.
    pub fn remove_rule(&mut self, rule_id: &str, actor: Option<String>) -> (r: bool)
        ensures
            rule_removed(old(self)@, final(self)@, rule_id@, actor, r),
            r ==> final(self)@.audit_log.last().id@.len() == 36,
    {
        let audit_id = clock::fresh_id();
        self.remove_rule_as(rule_id, actor, audit_id, Timestamp::now())
    }

    /// Removes the rules of the given ID at `now`.
    pub fn remove_rule_as(
        &mut self,
        rule_id: &str,
        actor: Option<String>,
        audit_id: String,
        now: Timestamp,
    ) -> (r: bool)
        ensures
            rule_removed(old(self)@, final(self)@, rule_id@, actor, r),
            r ==> final(self)@.audit_log.last().id == audit_id,
            r ==> final(self)@.audit_log.last().timestamp == now,
    {
        let ghost pred = |r: AclRule| r.id@ != rule_id@;
        let mut kept: Vec<AclRule> = Vec::new();
        let mut removed: bool = false;
        let mut i: usize = 0;
        proof {
            reveal(Seq::filter);
            assert(self.rules@.take(0).filter(pred) =~= Seq::<AclRule>::empty());
        }
        while i < self.rules.len()
            invariant
                i <= self.rules.len(),
                *self == *old(self),
                pred == |r: AclRule| r.id@ != rule_id@,
                kept@ == self.rules@.take(i as int).filter(pred),
                removed == exists|j: int| 0 <= j < i && (#[trigger] self.rules@[j]).id@ == rule_id@,
            decreases self.rules.len() - i,
        {
            proof {
                reveal(Seq::filter);
                assert(self.rules@.take(i + 1).drop_last() =~= self.rules@.take(i as int));
            }
            if str_eq(self.rules[i].id.as_str(), rule_id) {
                removed = true;
                assert(self.rules@[i as int].id@ == rule_id@);
            } else {
                kept.push(self.rules[i].clone());
            }
            i += 1;
        }
        assert(self.rules@.take(i as int) =~= self.rules@);
        self.rules = kept;
        if removed {
            let mut detail = "rule ".to_owned();
            detail.append(rule_id);
            detail.append(" removed");
            self.audit_log.push(
                AclAuditEntry {
                    id: audit_id,
                    timestamp: now,
                    operation: "remove".to_owned(),
                    rule_id: rule_id.to_owned(),
                    actor,
                    detail,
                },
            );
            assert(self.audit_log@.drop_last() =~= old(self).audit_log@);
        }
        removed
    }

    /// The rules in force, oldest first.
    pub fn list_rules(&self) -> (r: Vec<AclRule>)
        ensures
            r@ == self@.rules,
    {
        let r = self.rules.clone();
        assert(r@ =~= self.rules@);
        r
    }

    /// The audit trail, oldest entry first.
    pub fn audit_trail(&self) -> (r: Vec<AclAuditEntry>)
        ensures
            r@ == self@.audit_log,
    {
        let r = self.audit_log.clone();
        assert(r@ =~= self.audit_log@);
        r
    }

    /// Evaluate whether `subject` may perform `action` on `resource`.
    ///
    /// Deny rules always win over allow rules, so a freshly added deny is
    /// enforced immediately even if a broader allow rule already exists. With
    /// no matching rule the request is allowed.
    pub fn is_allowed(&self, subject: &str, resource: &str, action: &str) -> (r: bool)
        ensures
            r == allowed(self@.rules, subject@, resource@, action@),
    {
        let mut i: usize = 0;
        while i < self.rules.len()
            invariant
                i <= self.rules.len(),
                forall|j: int|
                    0 <= j < i ==> !((#[trigger] self.rules@[j]).effect == AclEffect::Deny
                        && governs(self.rules@[j], subject@, resource@, action@)),
            decreases self.rules.len() - i,
        {
            let rule = &self.rules[i];
            if rule.effect == AclEffect::Deny && rule_governs(rule, subject, resource, action) {
                assert(self.rules@[i as int].effect == AclEffect::Deny);
                return false;
            }
            i += 1;
        }
        true
    }

    /// Whether a request with these headers is let through. A request that
    /// names no user is anonymous.
    pub fn admits(&self, headers: &StrMap<String>, path: &str, method: &str) -> (r: bool)
        ensures
            r == allowed(self@.rules, requester(headers@), path@, method@),
    {
        let subject: &str = match headers.get("x-user-id") {
            Some(id) => id.as_str(),
            None => "anonymous",
        };
        self.is_allowed(subject, path, method)
    }
}

/// The user that a request names.
pub open spec fn requester(headers: Map<Seq<char>, String>) -> Seq<char> {
    if headers.contains_key("x-user-id"@) {
        headers["x-user-id"@]@
    } else {
        "anonymous"@
    }
}

impl Default for AclStore {
    fn default() -> (r: Self)
        ensures
            r@.rules == Seq::<AclRule>::empty(),
            r@.audit_log == Seq::<AclAuditEntry>::empty(),
    {
        Self::new()
    }
}

/// Whether a rule speaks of a request.
fn rule_governs(rule: &AclRule, subject: &str, resource: &str, action: &str) -> (r: bool)
    ensures
        r == governs(*rule, subject@, resource@, action@),
{
    (str_eq(rule.subject.as_str(), "*") || str_eq(rule.subject.as_str(), subject)) && (str_eq(
        rule.resource.as_str(),
        "*",
    ) || starts_with(resource, rule.resource.as_str())) && (str_eq(rule.action.as_str(), "*")
        || eq_ignore_case(rule.action.as_str(), action))
}

/// Without rules everything is allowed.
pub proof fn law_no_rules_allow_everything(
    subject: Seq<char>,
    resource: Seq<char>,
    action: Seq<char>,
)
    ensures
        allowed(Seq::<AclRule>::empty(), subject, resource, action),
{
}

/// A deny rule that speaks of a request is enforced as soon as it is added,
/// whatever allow rules there are; an allow rule changes no decision.
pub proof fn law_deny_wins(
    rules: Seq<AclRule>,
    rule: AclRule,
    subject: Seq<char>,
    resource: Seq<char>,
    action: Seq<char>,
)
    ensures
        rule.effect == AclEffect::Deny && governs(rule, subject, resource, action) ==> !allowed(
            rules.push(rule),
            subject,
            resource,
            action,
        ),
        rule.effect == AclEffect::Allow || !governs(rule, subject, resource, action) ==> allowed(
            rules.push(rule),
            subject,
            resource,
            action,
        ) == allowed(rules, subject, resource, action),
{
    let more = rules.push(rule);
    if rule.effect == AclEffect::Deny && governs(rule, subject, resource, action) {
        assert(more[rules.len() as int] == rule);
    } else {
        if !allowed(rules, subject, resource, action) {
            let i = choose|i: int|
                0 <= i < rules.len() && (#[trigger] rules[i]).effect == AclEffect::Deny && governs(
                    rules[i],
                    subject,
                    resource,
                    action,
                );
            assert(more[i] == rules[i]);
        }
        if !allowed(more, subject, resource, action) {
            let i = choose|i: int|
                0 <= i < more.len() && (#[trigger] more[i]).effect == AclEffect::Deny && governs(
                    more[i],
                    subject,
                    resource,
                    action,
                );
            assert(rules[i] == more[i]);
        }
    }
}

/// Adding a rule under an ID of its own and removing it again restores every
/// decision.
pub proof fn law_removal_restores_decisions(rules: Seq<AclRule>, rule: AclRule)
    requires
        forall|i: int| 0 <= i < rules.len() ==> (#[trigger] rules[i]).id@ != rule.id@,
    ensures
        without(rules.push(rule), rule.id@) == rules,
{
    reveal(Seq::filter);
    let pred = |r: AclRule| r.id@ != rule.id@;
    assert(rules.push(rule).drop_last() =~= rules);
    lemma_filter_all(rules, rule.id@);
}

/// Removing an ID that no rule has changes nothing.
proof fn lemma_filter_all(rules: Seq<AclRule>, id: Seq<char>)
    requires
        forall|i: int| 0 <= i < rules.len() ==> (#[trigger] rules[i]).id@ != id,
    ensures
        without(rules, id) == rules,
    decreases rules.len(),
{
    reveal(Seq::filter);
    if rules.len() > 0 {
        lemma_filter_all(rules.drop_last(), id);
        assert(rules.drop_last().push(rules.last()) =~= rules);
    }
}

/// A single deny rule refuses exactly the requests that it names: those of its
/// subject, on a resource that begins with its own, with its action in any case;
/// an asterisk in place of one of the three stands for all of them.
pub proof fn law_deny_rule_refuses_what_it_names(
    rule: AclRule,
    subject: Seq<char>,
    resource: Seq<char>,
    action: Seq<char>,
)
    requires
        rule.effect == AclEffect::Deny,
    ensures
        ({
            let ok = allowed(seq![rule], subject, resource, action);
            let n = rule.resource@.len();
            let same_subject = rule.subject@ == subject || rule.subject@ == seq!['*'];
            let same_resource = rule.resource@ == seq!['*'] || n <= resource.len() && resource.take(
                n as int,
            ) == rule.resource@;
            let same_action = rule.action@ == seq!['*'] || text::same_ignoring_case(
                rule.action@,
                action,
            );
            &&& !same_subject ==> ok
            &&& !same_resource ==> ok
            &&& !same_action ==> ok
            &&& same_subject && same_resource && same_action ==> !ok
        }),
{
    reveal_strlit("*");
    assert("*"@ =~= seq!['*']);
    let rules = seq![rule];
    assert(rules[0] == rule);
    assert(governs(rules[0], subject, resource, action) ==> !allowed(
        rules,
        subject,
        resource,
        action,
    ));
    assert(resource.take(rule.resource@.len() as int) =~= resource.subrange(
        0,
        rule.resource@.len() as int,
    ));
}

/// Rules that allow never refuse anything: a list without deny rules lets every
/// request through.
pub proof fn law_only_deny_rules_refuse(
    rules: Seq<AclRule>,
    subject: Seq<char>,
    resource: Seq<char>,
    action: Seq<char>,
)
    requires
        forall|i: int| 0 <= i < rules.len() ==> (#[trigger] rules[i]).effect == AclEffect::Allow,
    ensures
        allowed(rules, subject, resource, action),
{
}

/// A removed rule is gone, every other rule stays, and the list keeps its
/// order.
pub proof fn law_removal_takes_one_rule(rules: Seq<AclRule>, last: AclRule, id: Seq<char>)
    ensures
        without(Seq::<AclRule>::empty(), id) == Seq::<AclRule>::empty(),
        last.id@ == id ==> without(rules.push(last), id) == without(rules, id),
        last.id@ != id ==> without(rules.push(last), id) == without(rules, id).push(last),
{
    reveal(Seq::filter);
    assert(rules.push(last).drop_last() =~= rules);
    assert(without(Seq::<AclRule>::empty(), id) =~= Seq::<AclRule>::empty());
}

/// A request speaks for the user that its header names, and for an anonymous
/// one where it names none.
pub proof fn law_requester_is_the_named_user(headers: Map<Seq<char>, String>)
    ensures
        headers.contains_key("x-user-id"@) ==> requester(headers) == headers["x-user-id"@]@,
        !headers.contains_key("x-user-id"@) ==> requester(headers) == "anonymous"@,
{
}

/// A rule that is added stands behind the others as it was asked for, and a rule
/// that is removed is gone; the log notes each with who did it, and nothing that was
/// not done.
pub proof fn law_changes_are_logged(
    before: AclModel,
    after: AclModel,
    req: CreateAclRuleRequest,
    rule: AclRule,
    id: Seq<char>,
    actor: Option<String>,
    removed: bool,
)
    ensures
        rule_added(before, after, req, rule) ==> {
            &&& after.rules.len() == before.rules.len() + 1
            &&& after.rules.last().subject@ == req.subject@
            &&& after.rules.last().resource@ == req.resource@
            &&& after.rules.last().action@ == req.action@
            &&& after.rules.last().effect == req.effect
            &&& after.rules.last().created_by == req.actor
            &&& after.audit_log.len() == before.audit_log.len() + 1
            &&& after.audit_log.last().operation@ == "add"@
            &&& after.audit_log.last().rule_id@ == after.rules.last().id@
            &&& after.audit_log.last().actor == req.actor
            &&& after.audit_log.last().detail@ == "subject="@ + req.subject@ + " resource="@
                + req.resource@ + " action="@ + req.action@ + " effect="@ + req.effect.label()
        },
        rule_removed(before, after, id, actor, removed) ==> {
            &&& removed <==> exists|i: int|
                0 <= i < before.rules.len() && (#[trigger] before.rules[i]).id@ == id
            &&& removed ==> after.audit_log.len() == before.audit_log.len() + 1
                && after.audit_log.last().operation@ == "remove"@
                && after.audit_log.last().rule_id@ == id && after.audit_log.last().actor == actor
            &&& !removed ==> after.audit_log == before.audit_log && after.rules == before.rules
        },
        AclEffect::Allow.label() == "Allow"@,
        AclEffect::Deny.label() == "Deny"@,
{
    if rule_removed(before, after, id, actor, removed) && !removed {
        lemma_filter_all(before.rules, id);
    }
}

/// No rule with the removed name is left, and every other rule is.
pub proof fn law_removed_rule_is_gone(rules: Seq<AclRule>, rule: AclRule, id: Seq<char>)
    ensures
        without(rules, id).contains(rule) <==> rules.contains(rule) && rule.id@ != id,
    decreases rules.len(),
{
    if rules.len() == 0 {
        law_removal_takes_one_rule(rules, rule, id);
        assert(rules =~= Seq::<AclRule>::empty());
    } else {
        let init = rules.drop_last();
        let last = rules.last();
        law_removed_rule_is_gone(init, rule, id);
        law_removal_takes_one_rule(init, last, id);
        assert(init.push(last) =~= rules);
        lemma_push_contains(init, last, rule);
        lemma_push_contains(without(init, id), last, rule);
    }
}

/// A list with one rule more holds that rule and what it held.
proof fn lemma_push_contains(rules: Seq<AclRule>, last: AclRule, rule: AclRule)
    ensures
        rules.push(last).contains(rule) <==> rules.contains(rule) || rule == last,
{
    let more = rules.push(last);
    if rules.contains(rule) {
        let i = choose|i: int| 0 <= i < rules.len() && rules[i] == rule;
        assert(more[i] == rule);
    }
    assert(more[rules.len() as int] == last);
    if more.contains(rule) && rule != last {
        let i = choose|i: int| 0 <= i < more.len() && more[i] == rule;
        assert(rules[i] == rule);
    }
}

} // verus!
