use crate::coercion::{
    named_value_views, CoercionError, CoercionErrorKind, CoercionErrorView, NamedValue,
    NamedValueView, Value, ValueView,
};
use crate::search::{
    first_at, first_index, lemma_first_index_is, lemma_first_index_none, none_hit,
};
use vstd::prelude::*;

verus! {

/// One text field of a modal.
#[derive(Clone, Debug, PartialEq, Eq)]
pub struct ModalField {
    /// The name under which the submitted value comes back.
    pub name: String,
    pub label: String,
    pub required: bool,
    /// Whether the field takes several lines.
    pub paragraph: bool,
    pub placeholder: Option<String>,
}

pub struct ModalFieldView {
    pub name: Seq<char>,
    pub label: Seq<char>,
    pub required: bool,
    pub paragraph: bool,
    pub placeholder: Option<Seq<char>>,
}

impl View for ModalField {
    type V = ModalFieldView;

    open spec fn view(&self) -> ModalFieldView {
        ModalFieldView {
            name: self.name@,
            label: self.label@,
            required: self.required,
            paragraph: self.paragraph,
            placeholder: match self.placeholder {
                Some(text) => Some(text@),
                None => None,
            },
        }
    }
}

pub open spec fn field_views(fields: Seq<ModalField>) -> Seq<ModalFieldView> {
    fields.map_values(|f: ModalField| f@)
}

impl ModalField {
    pub fn duplicate(&self) -> (copy: ModalField)
        ensures
            copy@ == self@,
    {
        ModalField {
            name: self.name.clone(),
            label: self.label.clone(),
            required: self.required,
            paragraph: self.paragraph,
            placeholder: match &self.placeholder {
                Some(text) => Some(text.clone()),
                None => None,
            },
        }
    }
}

/// The "show modal" response: what the platform is asked to display, under
/// the identifier that the submission will carry.
#[derive(Clone, Debug, PartialEq, Eq)]
pub struct ModalResponse {
    pub custom_id: String,
    pub title: String,
    pub fields: Vec<ModalField>,
}

pub struct ModalResponseView {
    pub custom_id: Seq<char>,
    pub title: Seq<char>,
    pub fields: Seq<ModalFieldView>,
}

impl View for ModalResponse {
    type V = ModalResponseView;

    open spec fn view(&self) -> ModalResponseView {
        ModalResponseView {
            custom_id: self.custom_id@,
            title: self.title@,
            fields: field_views(self.fields@),
        }
    }
}

/// One field of a submitted modal.
#[derive(Clone, Debug, PartialEq, Eq)]
pub struct SubmittedField {
    pub name: String,
    pub value: String,
}

pub struct SubmittedFieldView {
    pub name: Seq<char>,
    pub value: Seq<char>,
}

impl View for SubmittedField {
    type V = SubmittedFieldView;

    open spec fn view(&self) -> SubmittedFieldView {
        SubmittedFieldView { name: self.name@, value: self.value@ }
    }
}

pub open spec fn submitted_views(fields: Seq<SubmittedField>) -> Seq<SubmittedFieldView> {
    fields.map_values(|f: SubmittedField| f@)
}

/// Why a modal could not be shown or a submission not be delivered.
#[derive(Clone, Copy, Debug, PartialEq, Eq, Structural)]
pub enum ModalError {
    /// No waiter is pending under the submission's identifier: it was never
    /// created, was cancelled, or has been resolved by an earlier submission.
    StaleModalSession,
    /// A waiter is already pending under the identifier.
    DuplicateSession,
}

/// The position of the first submitted field named `name`.
pub open spec fn submitted_named(fields: Seq<SubmittedFieldView>, name: Seq<char>) -> Option<int> {
    first_index(fields, |f: SubmittedFieldView| f.name == name)
}

/// The value of one modal field in a submission: its text, or `Absent` for an
/// optional field that was not submitted. A required field that was not
/// submitted is an error that carries the field's name.
pub open spec fn decode_field_spec(
    field: ModalFieldView,
    submitted: Seq<SubmittedFieldView>,
) -> Result<ValueView, CoercionErrorView> {
    match submitted_named(submitted, field.name) {
        Some(i) => Ok(ValueView::String(submitted[i].value)),
        None => if field.required {
            Err(
                CoercionErrorView { kind: CoercionErrorKind::MissingRequired, detail: field.name },
            )
        } else {
            Ok(ValueView::Absent)
        },
    }
}

/// The named values of all fields in declared order, or the error of the
/// first field that fails.
pub open spec fn decode_fields_spec(
    fields: Seq<ModalFieldView>,
    submitted: Seq<SubmittedFieldView>,
) -> Result<Seq<NamedValueView>, CoercionErrorView> {
    match first_index(fields, |f: ModalFieldView| decode_field_spec(f, submitted) is Err) {
        Some(i) => Err(decode_field_spec(fields[i], submitted)->Err_0),
        None => Ok(
            Seq::new(
                fields.len(),
                |i: int|
                    NamedValueView {
                        name: fields[i].name,
                        value: decode_field_spec(fields[i], submitted)->Ok_0,
                    },
            ),
        ),
    }
}

/// The position of the first submitted field named `name`.
pub fn find_submitted(submitted: &Vec<SubmittedField>, name: &String) -> (found: Option<usize>)
    ensures
        match found {
            Some(i) => submitted_named(submitted_views(submitted@), name@) == Some(i as int) && i
                < submitted.len(),
            None => submitted_named(submitted_views(submitted@), name@) is None,
        },
{
    let ghost views = submitted_views(submitted@);
    let ghost hit = |f: SubmittedFieldView| f.name == name@;
    let mut i: usize = 0;
    while i < submitted.len()
        invariant
            i <= submitted.len(),
            views == submitted_views(submitted@),
            hit == |f: SubmittedFieldView| f.name == name@,
            forall|j: int| 0 <= j < i ==> !hit(#[trigger] views[j]),
        decreases submitted.len() - i,
    {
        assert(views[i as int] == submitted[i as int]@);
        if submitted[i].name == *name {
            proof {
                assert(first_at(views, hit, i as int));
                lemma_first_index_is(views, hit, i as int);
            }
            return Some(i);
        }
        i += 1;
    }
    proof {
        assert(none_hit(views, hit));
        lemma_first_index_none(views, hit);
    }
    None
}

/// Decodes the submitted value of one field.
pub fn decode_field(field: &ModalField, submitted: &Vec<SubmittedField>) -> (result: Result<
    Value,
    CoercionError,
>)
    ensures
        match result {
            Ok(value) => decode_field_spec(field@, submitted_views(submitted@)) == Ok::<
                ValueView,
                CoercionErrorView,
            >(value@),
            Err(error) => decode_field_spec(field@, submitted_views(submitted@)) == Err::<
                ValueView,
                CoercionErrorView,
            >(error@),
        },
{
    match find_submitted(submitted, &field.name) {
        Some(i) => {
            assert(submitted_views(submitted@)[i as int] == submitted[i as int]@);
            Ok(Value::String(submitted[i].value.clone()))
        },
        None => {
            if field.required {
                Err(
                    CoercionError {
                        kind: CoercionErrorKind::MissingRequired,
                        detail: field.name.clone(),
                    },
                )
            } else {
                Ok(Value::Absent)
            }
        },
    }
}

/// Decodes every field in declared order and stops at the first failure.
pub fn decode_fields(fields: &Vec<ModalField>, submitted: &Vec<SubmittedField>) -> (result: Result<
    Vec<NamedValue>,
    CoercionError,
>)
    ensures
        match result {
            Ok(values) => decode_fields_spec(field_views(fields@), submitted_views(submitted@))
                == Ok::<Seq<NamedValueView>, CoercionErrorView>(named_value_views(values@)),
            Err(error) => decode_fields_spec(field_views(fields@), submitted_views(submitted@))
                == Err::<Seq<NamedValueView>, CoercionErrorView>(error@),
        },
{
    let ghost views = field_views(fields@);
    let ghost given = submitted_views(submitted@);
    let ghost fails = |f: ModalFieldView| decode_field_spec(f, given) is Err;
    let mut values: Vec<NamedValue> = Vec::new();
    let mut i: usize = 0;
    while i < fields.len()
        invariant
            i <= fields.len(),
            views == field_views(fields@),
            given == submitted_views(submitted@),
            fails == |f: ModalFieldView| decode_field_spec(f, given) is Err,
            values@.len() == i,
            forall|j: int| 0 <= j < i ==> !fails(#[trigger] views[j]),
            forall|j: int|
                0 <= j < i ==> (#[trigger] values@[j])@ == (NamedValueView {
                    name: views[j].name,
                    value: decode_field_spec(views[j], given)->Ok_0,
                }),
        decreases fields.len() - i,
    {
        assert(views[i as int] == fields[i as int]@);
        match decode_field(&fields[i], submitted) {
            Ok(value) => {
                values.push(NamedValue { name: fields[i].name.clone(), value });
            },
            Err(error) => {
                proof {
                    assert(first_at(views, fails, i as int));
                    lemma_first_index_is(views, fails, i as int);
                }
                return Err(error);
            },
        }
        i += 1;
    }
    proof {
        assert(none_hit(views, fails));
        lemma_first_index_none(views, fails);
        assert(named_value_views(values@) =~= Seq::new(
            views.len(),
            |i: int|
                NamedValueView {
                    name: views[i].name,
                    value: decode_field_spec(views[i], given)->Ok_0,
                },
        ));
    }
    Ok(values)
}

/// A modal that was shown and not yet submitted.
pub struct Session<W> {
    pub custom_id: String,
    pub fields: Vec<ModalField>,
    /// Whatever resumes the command that waits for the submission.
    pub waiter: W,
}

pub struct SessionView<W> {
    pub custom_id: Seq<char>,
    pub fields: Seq<ModalFieldView>,
    pub waiter: W,
}

impl<W> View for Session<W> {
    type V = SessionView<W>;

    open spec fn view(&self) -> SessionView<W> {
        SessionView {
            custom_id: self.custom_id@,
            fields: field_views(self.fields@),
            waiter: self.waiter,
        }
    }
}

pub open spec fn session_views<W>(sessions: Seq<Session<W>>) -> Seq<SessionView<W>> {
    sessions.map_values(|s: Session<W>| s@)
}

/// What a submission resolves its waiter with: the decoded values of the
/// modal's fields, or the error of the first field that could not be decoded.
pub struct Resolution<W> {
    pub waiter: W,
    pub values: Result<Vec<NamedValue>, CoercionError>,
}

/// The position of the session pending under `custom_id`.
pub open spec fn pending_at<W>(sessions: Seq<SessionView<W>>, custom_id: Seq<char>) -> Option<
    int,
> {
    first_index(sessions, |s: SessionView<W>| s.custom_id == custom_id)
}

/// No two pending sessions share an identifier.
pub open spec fn distinct_ids<W>(sessions: Seq<SessionView<W>>) -> bool {
    forall|i: int, j: int|
        0 <= i < j < sessions.len() ==> (#[trigger] sessions[i]).custom_id != (
        #[trigger] sessions[j]).custom_id
}

/// Once the session under an identifier is removed, nothing is pending under
/// that identifier, and every other identifier is pending as before.
pub proof fn lemma_removed_is_gone<W>(
    sessions: Seq<SessionView<W>>,
    i: int,
    other: Seq<char>,
)
    requires
        distinct_ids(sessions),
        0 <= i < sessions.len(),
    ensures
        distinct_ids(sessions.remove(i)),
        pending_at(sessions.remove(i), sessions[i].custom_id) is None,
        other != sessions[i].custom_id ==> (pending_at(sessions.remove(i), other) is Some
            <==> pending_at(sessions, other) is Some),
{
    let left = sessions.remove(i);
    let id = sessions[i].custom_id;
    assert forall|a: int, b: int| 0 <= a < b < left.len() implies (#[trigger] left[a]).custom_id
        != (#[trigger] left[b]).custom_id by {
        let a0 = if a < i { a } else { a + 1 };
        let b0 = if b < i { b } else { b + 1 };
        assert(left[a] == sessions[a0] && left[b] == sessions[b0]);
    }
    let hit = |s: SessionView<W>| s.custom_id == id;
    assert forall|j: int| 0 <= j < left.len() implies !hit(#[trigger] left[j]) by {
        let j0 = if j < i { j } else { j + 1 };
        assert(left[j] == sessions[j0]);
    }
    lemma_first_index_none(left, hit);
    if other != id {
        let hit_other = |s: SessionView<W>| s.custom_id == other;
        crate::search::lemma_first_index_sound(sessions, hit_other);
        crate::search::lemma_first_index_sound(left, hit_other);
        if pending_at(sessions, other) is Some {
            let k = pending_at(sessions, other)->Some_0;
            let k1 = if k < i { k } else { k - 1 };
            assert(left[k1] == sessions[k]);
            assert(hit_other(left[k1]));
            if pending_at(left, other) is None {
                assert(!hit_other(left[k1]));
            }
        }
        if pending_at(left, other) is Some {
            let k = pending_at(left, other)->Some_0;
            let k0 = if k < i { k } else { k + 1 };
            assert(left[k] == sessions[k0]);
            assert(hit_other(sessions[k0]));
            if pending_at(sessions, other) is None {
                assert(!hit_other(sessions[k0]));
            }
        }
    }
}

/// The modals that were shown and wait for their submission.
pub struct ModalSessions<W> {
    pending: Vec<Session<W>>,
}

impl<W> View for ModalSessions<W> {
    type V = Seq<SessionView<W>>;

    /// The pending sessions, oldest first.
    closed spec fn view(&self) -> Seq<SessionView<W>> {
        session_views(self.pending@)
    }
}

impl<W> ModalSessions<W> {
    /// Whether no two pending sessions share an identifier. `new` establishes
    /// this and every method keeps it.
    pub open spec fn well_formed(&self) -> bool {
        distinct_ids(self@)
    }

    /// No pending session.
    pub fn new() -> (sessions: Self)
        ensures
            sessions@.len() == 0,
            sessions.well_formed(),
    {
        let sessions = ModalSessions { pending: Vec::new() };
        assert(sessions@ =~= Seq::empty());
        sessions
    }

    /// The number of pending sessions.
    pub fn len(&self) -> (n: usize)
        ensures
            n == self@.len(),
    {
        self.pending.len()
    }

    /// The position of the session pending under `custom_id`.
    pub fn position(&self, custom_id: &String) -> (found: Option<usize>)
        ensures
            match found {
                Some(i) => pending_at(self@, custom_id@) == Some(i as int) && i < self@.len(),
                None => pending_at(self@, custom_id@) is None,
            },
    {
        let ghost views = self@;
        let ghost hit = |s: SessionView<W>| s.custom_id == custom_id@;
        let mut i: usize = 0;
        while i < self.pending.len()
            invariant
                i <= self.pending.len(),
                views == session_views(self.pending@),
                hit == |s: SessionView<W>| s.custom_id == custom_id@,
                forall|j: int| 0 <= j < i ==> !hit(#[trigger] views[j]),
            decreases self.pending.len() - i,
        {
            assert(views[i as int] == self.pending[i as int]@);
            if self.pending[i].custom_id == *custom_id {
                proof {
                    assert(first_at(views, hit, i as int));
                    lemma_first_index_is(views, hit, i as int);
                }
                return Some(i);
            }
            i += 1;
        }
        proof {
            assert(none_hit(views, hit));
            lemma_first_index_none(views, hit);
        }
        None
    }

    /// Whether a session is pending under `custom_id`.
    pub fn is_pending(&self, custom_id: &String) -> (yes: bool)
        ensures
            yes == pending_at(self@, custom_id@) is Some,
    {
        self.position(custom_id).is_some()
    }

    /// Registers a waiter under `custom_id` and describes the modal to show.
    /// Fails, changing nothing, if a session is pending under the identifier.
    pub fn create_modal(
        &mut self,
        custom_id: String,
        title: String,
        fields: Vec<ModalField>,
        waiter: W,
    ) -> (result: Result<ModalResponse, ModalError>)
        requires
            old(self).well_formed(),
        ensures
            final(self).well_formed(),
            match result {
                Ok(response) => {
                    &&& pending_at(old(self)@, custom_id@) is None
                    &&& final(self)@ == old(self)@.push(
                        SessionView { custom_id: custom_id@, fields: field_views(fields@), waiter },
                    )
                    &&& pending_at(final(self)@, custom_id@) == Some(old(self)@.len() as int)
                    &&& response@ == (ModalResponseView {
                        custom_id: custom_id@,
                        title: title@,
                        fields: field_views(fields@),
                    })
                },
                Err(error) => {
                    &&& error == ModalError::DuplicateSession
                    &&& pending_at(old(self)@, custom_id@) is Some
                    &&& final(self)@ == old(self)@
                },
            },
    {
        if self.position(&custom_id).is_some() {
            return Err(ModalError::DuplicateSession);
        }
        let mut shown: Vec<ModalField> = Vec::new();
        let mut i: usize = 0;
        while i < fields.len()
            invariant
                i <= fields.len(),
                shown@.len() == i,
                forall|j: int| 0 <= j < i ==> (#[trigger] shown@[j])@ == fields@[j]@,
            decreases fields.len() - i,
        {
            shown.push(fields[i].duplicate());
            i += 1;
        }
        assert(field_views(shown@) =~= field_views(fields@));
        let response = ModalResponse { custom_id: custom_id.clone(), title, fields: shown };
        let ghost before = self@;
        let session = Session { custom_id, fields, waiter };
        proof {
            crate::search::lemma_first_index_sound(
                before,
                |s: SessionView<W>| s.custom_id == session@.custom_id,
            );
            let grown = before.push(session@);
            assert forall|a: int, b: int| 0 <= a < b < grown.len() implies (
            #[trigger] grown[a]).custom_id != (#[trigger] grown[b]).custom_id by {
                if b < before.len() {
                    assert(grown[a] == before[a] && grown[b] == before[b]);
                } else {
                    assert(grown[a] == before[a]);
                    assert(!(|s: SessionView<W>| s.custom_id == session@.custom_id)(before[a]));
                }
            }
        }
        self.pending.push(session);
        assert(self@ =~= before.push(session@));
        proof {
            let hit = |s: SessionView<W>| s.custom_id == session@.custom_id;
            assert forall|j: int| 0 <= j < before.len() implies !hit(#[trigger] self@[j]) by {
                assert(self@[j] == before[j]);
                assert(!hit(before[j]));
            }
            assert(first_at(self@, hit, before.len() as int));
            lemma_first_index_is(self@, hit, before.len() as int);
        }
        Ok(response)
    }

    /// Delivers a submission: the session pending under its identifier is
    /// removed and its waiter is handed out with the decoded field values.
    /// Without such a session the submission is stale and nothing changes.
    pub fn submit(&mut self, custom_id: &String, submitted: &Vec<SubmittedField>) -> (result:
        Result<Resolution<W>, ModalError>)
        requires
            old(self).well_formed(),
        ensures
            final(self).well_formed(),
            match result {
                Ok(resolution) => {
                    &&& pending_at(old(self)@, custom_id@) matches Some(i)
                    &&& final(self)@ == old(self)@.remove(i)
                    &&& resolution.waiter == old(self)@[i].waiter
                    &&& pending_at(final(self)@, custom_id@) is None
                    &&& match resolution.values {
                        Ok(values) => decode_fields_spec(
                            old(self)@[i].fields,
                            submitted_views(submitted@),
                        ) == Ok::<Seq<NamedValueView>, CoercionErrorView>(
                            named_value_views(values@),
                        ),
                        Err(error) => decode_fields_spec(
                            old(self)@[i].fields,
                            submitted_views(submitted@),
                        ) == Err::<Seq<NamedValueView>, CoercionErrorView>(error@),
                    }
                },
                Err(error) => {
                    &&& error == ModalError::StaleModalSession
                    &&& pending_at(old(self)@, custom_id@) is None
                    &&& final(self)@ == old(self)@
                },
            },
    {
        match self.position(custom_id) {
            None => Err(ModalError::StaleModalSession),
            Some(i) => {
                let ghost before = self@;
                let session = self.pending.remove(i);
                proof {
                    assert(before[i as int] == session@);
                    assert(self@ =~= before.remove(i as int));
                    crate::search::lemma_first_index_sound(
                        before,
                        |s: SessionView<W>| s.custom_id == custom_id@,
                    );
                    lemma_removed_is_gone(before, i as int, custom_id@);
                }
                let values = decode_fields(&session.fields, submitted);
                Ok(Resolution { waiter: session.waiter, values })
            },
        }
    }

    /// Gives up a pending session, as when the command that waits for it is
    /// torn down: its slot is released and its waiter handed back.
    pub fn cancel(&mut self, custom_id: &String) -> (waiter: Option<W>)
        requires
            old(self).well_formed(),
        ensures
            final(self).well_formed(),
            match waiter {
                Some(released) => {
                    &&& pending_at(old(self)@, custom_id@) matches Some(i)
                    &&& final(self)@ == old(self)@.remove(i)
                    &&& released == old(self)@[i].waiter
                    &&& pending_at(final(self)@, custom_id@) is None
                },
                None => pending_at(old(self)@, custom_id@) is None && final(self)@ == old(self)@,
            },
    {
        match self.position(custom_id) {
            None => None,
            Some(i) => {
                let ghost before = self@;
                let session = self.pending.remove(i);
                proof {
                    assert(before[i as int] == session@);
                    assert(self@ =~= before.remove(i as int));
                    crate::search::lemma_first_index_sound(
                        before,
                        |s: SessionView<W>| s.custom_id == custom_id@,
                    );
                    lemma_removed_is_gone(before, i as int, custom_id@);
                }
                Some(session.waiter)
            },
        }
    }
}

} // verus!
