//! Submitting a broker's opt-out web form, as a sequence of browser steps.
//!
//! The submission is planned from the broker's definition and the values to
//! enter; the caller performs each step in a browser and hands back how it
//! went, and the submission decides whether to go on and with what outcome
//! it ends.

use vstd::prelude::*;
use crate::broker::definition::{BrokerDefinition, FormSelectors, RemovalMethod};
use crate::broker::error::BrokerError;
use crate::broker::removal::RemovalOutcome;
use crate::browser::error::{browser_error_text, BrowserError};
use crate::text::{concat_strs, str_eq};

verus! {

/// One browser step of a form submission.
#[derive(Debug)]
pub enum FormStep {
    /// Open the form's page
    Navigate { url: String },
    /// Look for a CAPTCHA; finding it ends the submission
    DetectCaptcha { selector: String, timeout_ms: u64 },
    /// Enter a value into a field
    Fill { field: String, selector: String, value: String },
    /// Press the submit button
    Click { selector: String },
    /// Give the submission time to be processed
    Settle { secs: u64 },
    /// Wait for the confirmation that the form was accepted
    AwaitConfirmation { selector: String, timeout_ms: u64 },
}

/// The selector of the input for a field of the form, if the field is one
/// that the form knows and the broker gives it a selector.
pub open spec fn field_selector(sel: FormSelectors, name: Seq<char>) -> Option<String> {
    if name == "listing_url"@ {
        sel.listing_url_input
    } else if name == "email"@ {
        sel.email_input
    } else if name == "first_name"@ {
        sel.first_name_input
    } else if name == "last_name"@ {
        sel.last_name_input
    } else {
        None
    }
}

/// The fill steps for the values, in order; values without a selector are
/// left out.
pub open spec fn fill_steps(sel: FormSelectors, fields: Seq<(String, String)>) -> Seq<FormStep>
    decreases fields.len(),
{
    if fields.len() == 0 {
        Seq::empty()
    } else {
        let (name, value) = fields.last();
        fill_steps(sel, fields.drop_last()) + match field_selector(sel, name@) {
            Some(s) => seq![FormStep::Fill { field: name, selector: s, value }],
            None => Seq::empty(),
        }
    }
}

/// The steps of a submission: open the form, look for a CAPTCHA when the
/// broker names one, fill the fields, submit, wait two seconds, and wait up
/// to five seconds for the confirmation when the broker names one.
pub open spec fn planned_steps(url: String, sel: FormSelectors, fields: Seq<(String, String)>) -> Seq<FormStep> {
    seq![FormStep::Navigate { url }] + match sel.captcha_frame {
        Some(s) => seq![FormStep::DetectCaptcha { selector: s, timeout_ms: 1000 }],
        None => Seq::empty(),
    } + fill_steps(sel, fields) + seq![
        FormStep::Click { selector: sel.submit_button },
        FormStep::Settle { secs: 2 },
    ] + match sel.success_indicator {
        Some(s) => seq![FormStep::AwaitConfirmation { selector: s, timeout_ms: 5000 }],
        None => Seq::empty(),
    }
}

/// A fill step enters the field through the form's own input for that
/// field: the listing URL, email, first-name or last-name input; no other
/// field is filled.
pub open spec fn fills_through_own_input(sel: FormSelectors, field: Seq<char>, selector: String) -> bool {
    &&& field == "listing_url"@ || field == "email"@ || field == "first_name"@ || field == "last_name"@
    &&& field == "listing_url"@ ==> sel.listing_url_input == Some(selector)
    &&& field == "email"@ ==> sel.email_input == Some(selector)
    &&& field == "first_name"@ ==> sel.first_name_input == Some(selector)
    &&& field == "last_name"@ ==> sel.last_name_input == Some(selector)
}

/// Distinct field names of the form.
proof fn lemma_form_field_names_distinct()
    ensures
        "listing_url"@ != "email"@,
        "listing_url"@ != "first_name"@,
        "listing_url"@ != "last_name"@,
        "email"@ != "first_name"@,
        "email"@ != "last_name"@,
        "first_name"@ != "last_name"@,
{
    reveal_strlit("listing_url");
    reveal_strlit("email");
    reveal_strlit("first_name");
    reveal_strlit("last_name");
    assert("listing_url"@.len() != "email"@.len());
    assert("listing_url"@.len() != "first_name"@.len());
    assert("listing_url"@.len() != "last_name"@.len());
    assert("email"@.len() != "first_name"@.len());
    assert("email"@.len() != "last_name"@.len());
    assert("first_name"@[0] != "last_name"@[0]);
}

/// Each fill step of a plan enters its field through the form's own input
/// for that field, with the value given for it.
pub proof fn law_fill_steps_use_own_inputs(sel: FormSelectors, fields: Seq<(String, String)>, k: int)
    requires
        0 <= k < fill_steps(sel, fields).len(),
    ensures
        fill_steps(sel, fields)[k] matches FormStep::Fill { field, selector, value } && fills_through_own_input(
            sel,
            field@,
            selector,
        ) && fields.contains((field, value)),
    decreases fields.len(),
{
    lemma_form_field_names_distinct();
    let rest = fill_steps(sel, fields.drop_last());
    if k < rest.len() {
        law_fill_steps_use_own_inputs(sel, fields.drop_last(), k);
        assert(fill_steps(sel, fields)[k] == rest[k]);
        match rest[k] {
            FormStep::Fill { field, value, .. } => {
                let j = choose|j: int| 0 <= j < fields.drop_last().len() && fields.drop_last()[j] == (field, value);
                assert(fields[j] == (field, value));
            },
            _ => {},
        }
    } else {
        assert(fields[fields.len() - 1] == fields.last());
    }
}

/// A known field given a value is filled when the form has an input for
/// it: the plan holds a fill step for it through that input.
pub proof fn law_first_name_filled(sel: FormSelectors, fields: Seq<(String, String)>, value: String, s: String)
    requires
        sel.first_name_input == Some(s),
        fields.len() > 0,
        fields.last().0@ == "first_name"@,
        fields.last().1 == value,
    ensures
        fill_steps(sel, fields).last() == (FormStep::Fill { field: fields.last().0, selector: s, value }),
{
    lemma_form_field_names_distinct();
}

/// No field name is given twice, as in a map from names to values.
pub open spec fn field_names_distinct(fields: Seq<(String, String)>) -> bool {
    forall|i: int, j: int| 0 <= i < j < fields.len() ==> (#[trigger] fields[i]).0@ != (#[trigger] fields[j]).0@
}

/// The value given for the email field (the names being distinct, the
/// only one), or the empty text.
pub open spec fn email_value(fields: Seq<(String, String)>) -> Seq<char>
    decreases fields.len(),
{
    if fields.len() == 0 {
        Seq::empty()
    } else if fields[0].0@ == "email"@ {
        fields[0].1@
    } else {
        email_value(fields.drop_first())
    }
}

/// How a step ended, as far as the submission is concerned.
#[derive(Debug, Clone, Copy, PartialEq, Eq, Structural)]
pub enum Verdict {
    /// Go on with the next step (or end with `Submitted` after the last)
    Continue,
    /// End with a removal error
    Fail,
    /// End: a CAPTCHA needs the user
    Captcha,
    /// End: the form was accepted and an email verification follows
    Confirmed,
    /// End: the confirmation did not appear
    Unconfirmed,
}

/// The verdict on a step from how it went: a failed navigation, fill or
/// click fails the submission; a CAPTCHA that is found, or a confirmation
/// that appears or does not, ends it; anything else goes on.
pub open spec fn verdict(step: FormStep, ev: Result<(), BrowserError>) -> Verdict {
    match step {
        FormStep::Navigate { .. } => if ev is Ok { Verdict::Continue } else { Verdict::Fail },
        FormStep::DetectCaptcha { .. } => if ev is Ok { Verdict::Captcha } else { Verdict::Continue },
        FormStep::Fill { .. } => if ev is Ok { Verdict::Continue } else { Verdict::Fail },
        FormStep::Click { .. } => if ev is Ok { Verdict::Continue } else { Verdict::Fail },
        FormStep::Settle { .. } => Verdict::Continue,
        FormStep::AwaitConfirmation { .. } => if ev is Ok { Verdict::Confirmed } else { Verdict::Unconfirmed },
    }
}

/// The reason given when a step fails the submission.
pub open spec fn failure_reason(step: FormStep, ev: Result<(), BrowserError>) -> Seq<char> {
    match ev {
        Ok(_) => Seq::empty(),
        Err(e) => match step {
            FormStep::Navigate { .. } => "Navigation failed: "@ + browser_error_text(e),
            FormStep::Fill { field, .. } => "Failed to fill field "@ + field@ + ": "@ + browser_error_text(e),
            FormStep::Click { .. } => "Failed to click submit: "@ + browser_error_text(e),
            _ => Seq::empty(),
        },
    }
}

/// A submission in progress.
pub struct WebFormSubmission {
    broker_id: String,
    url: String,
    email: String,
    steps: Vec<FormStep>,
    next: usize,
}

/// The input selector for a field name, as `field_selector` states it.
fn select_input<'a>(sel: &'a FormSelectors, name: &str) -> (r: Option<&'a String>)
    ensures
        match (r, field_selector(*sel, name@)) {
            (Some(a), Some(b)) => *a == b,
            (None, None) => true,
            _ => false,
        },
{
    if str_eq(name, "listing_url") {
        sel.listing_url_input.as_ref()
    } else if str_eq(name, "email") {
        sel.email_input.as_ref()
    } else if str_eq(name, "first_name") {
        sel.first_name_input.as_ref()
    } else if str_eq(name, "last_name") {
        sel.last_name_input.as_ref()
    } else {
        None
    }
}

/// The first value given for the email field, or the empty text.
fn first_email(fields: &Vec<(String, String)>) -> (r: String)
    ensures
        r@ == email_value(fields@),
{
    let mut i: usize = 0;
    assert(fields@.skip(0) =~= fields@);
    while i < fields.len()
        invariant
            i <= fields.len(),
            email_value(fields@) == email_value(fields@.skip(i as int)),
        decreases fields.len() - i,
    {
        assert(fields@.skip(i as int).drop_first() =~= fields@.skip(i as int + 1));
        if str_eq(fields[i].0.as_str(), "email") {
            return fields[i].1.clone();
        }
        i += 1;
    }
    assert(fields@.skip(i as int) =~= Seq::<(String, String)>::empty());
    String::new()
}

impl WebFormSubmission {
    /// The broker the submission is for.
    pub closed spec fn broker(&self) -> Seq<char> {
        self.broker_id@
    }

    /// The form's address.
    pub closed spec fn form_url(&self) -> Seq<char> {
        self.url@
    }

    /// The email value given for the form.
    pub closed spec fn email(&self) -> Seq<char> {
        self.email@
    }

    /// The planned steps.
    pub closed spec fn steps(&self) -> Seq<FormStep> {
        self.steps@
    }

    /// How many steps were taken.
    pub closed spec fn position(&self) -> int {
        self.next as int
    }

    /// Plans the submission of a broker's web form with the given values
    /// (field name, value; each name once). A broker whose removal is not a
    /// web form gets an error.
    pub fn begin(def: &BrokerDefinition, field_values: Vec<(String, String)>) -> (r: Result<Self, BrokerError>)
        requires
            field_names_distinct(field_values@),
        ensures
            match def.removal {
                RemovalMethod::WebForm { url, form_selectors, .. } => r matches Ok(s) && s.steps()
                    == planned_steps(url, form_selectors, field_values@) && s.position() == 0
                    && s.broker() == def.broker.id@ && s.form_url() == url@ && s.email()
                    == email_value(field_values@),
                _ => r matches Err(BrokerError::RemovalError { broker_id, reason }) && broker_id@
                    == def.broker.id@ && reason@ == "Not a web-form removal method"@,
            },
    {
        let broker_id = def.id().as_str().to_string();
        match &def.removal {
            RemovalMethod::WebForm { url, form_selectors, .. } => {
                let sel = form_selectors;
                let mut steps: Vec<FormStep> = Vec::new();
                steps.push(FormStep::Navigate { url: url.clone() });
                match &sel.captcha_frame {
                    Some(c) => steps.push(FormStep::DetectCaptcha { selector: c.clone(), timeout_ms: 1000 }),
                    None => {},
                }
                let ghost head = steps@;
                let mut i: usize = 0;
                while i < field_values.len()
                    invariant
                        i <= field_values.len(),
                        steps@ == head + fill_steps(*sel, field_values@.take(i as int)),
                    decreases field_values.len() - i,
                {
                    assert(field_values@.take(i as int + 1).drop_last() =~= field_values@.take(i as int));
                    let (name, value) = &field_values[i];
                    match select_input(sel, name.as_str()) {
                        Some(s) => {
                            steps.push(FormStep::Fill { field: name.clone(), selector: s.clone(), value: value.clone() });
                        },
                        None => {},
                    }
                    i += 1;
                }
                assert(field_values@.take(field_values.len() as int) =~= field_values@);
                steps.push(FormStep::Click { selector: sel.submit_button.clone() });
                steps.push(FormStep::Settle { secs: 2 });
                match &sel.success_indicator {
                    Some(c) => steps.push(FormStep::AwaitConfirmation { selector: c.clone(), timeout_ms: 5000 }),
                    None => {},
                }
                let email = first_email(&field_values);
                let r = WebFormSubmission { broker_id, url: url.clone(), email, steps, next: 0 };
                assert(r.steps@ =~= planned_steps(*url, *sel, field_values@));
                Ok(r)
            },
            _ => Err(BrokerError::RemovalError { broker_id, reason: "Not a web-form removal method".to_string() }),
        }
    }

    /// The step to perform now; `None` once the submission has ended.
    pub fn current(&self) -> (r: Option<&FormStep>)
        ensures
            0 <= self.position() < self.steps().len() ==> (r matches Some(s) && *s == self.steps()[self.position()]),
            self.position() >= self.steps().len() ==> r is None,
    {
        if self.next < self.steps.len() {
            Some(&self.steps[self.next])
        } else {
            None
        }
    }

    /// Takes in how the current step went. Returns the submission's outcome
    /// once it has ended, `None` while steps remain.
    pub fn advance(&mut self, ev: Result<(), BrowserError>) -> (r: Option<Result<RemovalOutcome, BrokerError>>)
        requires
            0 <= old(self).position() < old(self).steps().len(),
        ensures
            final(self).steps() == old(self).steps(),
            final(self).broker() == old(self).broker(),
            final(self).form_url() == old(self).form_url(),
            final(self).email() == old(self).email(),
            ({
                let step = old(self).steps()[old(self).position()];
                let v = verdict(step, ev);
                &&& v == Verdict::Continue ==> final(self).position() == old(self).position() + 1 && (
                final(self).position() < final(self).steps().len() ==> r is None) && (
                final(self).position() == final(self).steps().len() ==> r == Some(
                    Ok::<RemovalOutcome, BrokerError>(RemovalOutcome::Submitted),
                ))
                &&& v != Verdict::Continue ==> final(self).position() == final(self).steps().len()
                &&& v == Verdict::Fail ==> (r matches Some(Err(BrokerError::RemovalError { broker_id, reason })) && broker_id@
                    == old(self).broker() && reason@ == failure_reason(step, ev))
                &&& v == Verdict::Captcha ==> (r matches Some(Ok(RemovalOutcome::RequiresCaptcha { captcha_url }))
                    && captcha_url@ == old(self).form_url())
                &&& v == Verdict::Confirmed ==> (r matches Some(Ok(RemovalOutcome::RequiresEmailVerification { email, sent_to }))
                    && email@ == old(self).email() && sent_to@ == old(self).email())
                &&& v == Verdict::Unconfirmed ==> (r matches Some(Ok(RemovalOutcome::Failed { reason, error_details }))
                    && reason@ == "Success confirmation not detected"@ && error_details is None)
            }),
    {
        let n = self.steps.len();
        let k = self.next;
        let finish: Option<Result<RemovalOutcome, BrokerError>> = match &self.steps[k] {
            FormStep::Navigate { .. } => match &ev {
                Ok(_) => None,
                Err(e) => {
                    let m = e.message();
                    Some(Err(BrokerError::RemovalError {
                        broker_id: self.broker_id.clone(),
                        reason: concat_strs("Navigation failed: ", m.as_str()),
                    }))
                },
            },
            FormStep::DetectCaptcha { .. } => match &ev {
                Ok(_) => Some(Ok(RemovalOutcome::RequiresCaptcha { captcha_url: self.url.clone() })),
                Err(_) => None,
            },
            FormStep::Fill { field, .. } => match &ev {
                Ok(_) => None,
                Err(e) => {
                    let m = e.message();
                    let a = concat_strs("Failed to fill field ", field.as_str());
                    let b = concat_strs(a.as_str(), ": ");
                    Some(Err(BrokerError::RemovalError {
                        broker_id: self.broker_id.clone(),
                        reason: concat_strs(b.as_str(), m.as_str()),
                    }))
                },
            },
            FormStep::Click { .. } => match &ev {
                Ok(_) => None,
                Err(e) => {
                    let m = e.message();
                    Some(Err(BrokerError::RemovalError {
                        broker_id: self.broker_id.clone(),
                        reason: concat_strs("Failed to click submit: ", m.as_str()),
                    }))
                },
            },
            FormStep::Settle { .. } => None,
            FormStep::AwaitConfirmation { .. } => match &ev {
                Ok(_) => Some(Ok(RemovalOutcome::RequiresEmailVerification {
                    email: self.email.clone(),
                    sent_to: self.email.clone(),
                })),
                Err(_) => Some(Ok(RemovalOutcome::Failed {
                    reason: "Success confirmation not detected".to_string(),
                    error_details: None,
                })),
            },
        };
        match finish {
            Some(o) => {
                self.next = n;
                Some(o)
            },
            None => {
                self.next = k + 1;
                if k + 1 == n {
                    Some(Ok(RemovalOutcome::Submitted))
                } else {
                    None
                }
            },
        }
    }
}

} // verus!
