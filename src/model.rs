use vstd::prelude::*;

use crate::conf::{derived_shape, DrawingConf, GateError};
use crate::schema::{Schema, SchemaView};

verus! {

/// Hints: pairs of (path, semantic label), as handed to the hint resolver.
pub type Hints = Vec<(String, String)>;

/// What a commit records: the refined shape and the hints it was refined with.
pub type Committed = Option<(SchemaView, Hints)>;

/// The (path, label) pairs of some hints.
pub open spec fn hints_view(h: Hints) -> Seq<(Seq<char>, Seq<char>)> {
    h@.map_values(|p: (String, String)| (p.0@, p.1@))
}

/// What serde_json decodes from `text` as a JSON object of strings, in
/// increasing key order; `None` when `text` is not exactly such an object.
pub uninterp spec fn json_string_map(text: Seq<char>) -> Option<Seq<(Seq<char>, Seq<char>)>>;

/// Relies on serde_json::from_str into a BTreeMap<String, String>: the
/// decoded pairs depend on the text alone.
#[verifier::external_body]
fn decode_hints(text: &str) -> (r: Result<Hints, String>)
    ensures
        match r {
            Ok(h) => json_string_map(text@) == Some(hints_view(h)),
            Err(_) => json_string_map(text@) is None,
        },
{
    match serde_json::from_str::<std::collections::BTreeMap<String, String>>(text) {
        Ok(m) => Ok(m.into_iter().collect()),
        Err(e) => Err(e.to_string()),
    }
}

/// Decodes a hints payload, a JSON object from path to label; anything else
/// is a parse error carrying the decoder's message.
pub fn parse_hints(text: &str) -> (r: Result<Hints, GateError>)
    ensures
        match r {
            Ok(h) => json_string_map(text@) == Some(hints_view(h)),
            Err(e) => json_string_map(text@) is None && e is Parse,
        },
{
    match decode_hints(text) {
        Ok(h) => Ok(h),
        Err(msg) => Err(GateError::Parse(msg)),
    }
}

/// Whether candidate `c`, whose derived shape, refined by
/// the committed hints, came out as `refined`.
pub open spec fn gate(committed: Committed, c: DrawingConf, refined: Result<Schema, String>) -> Result<(), GateError> {
    match committed {
        None => Ok(()),
        Some((s, _)) => if derived_shape(c.data) is None {
            Err(GateError::EmptyList)
        } else {
            match refined {
                Err(h) => Err(GateError::Hint(h)),
                Ok(r) => if r.view() == s {
                    Ok(())
                } else {
                    Err(GateError::SchemaMismatch)
                },
            }
        },
    }
}

/// The outcome of establishing a schema for the live value `live`, whose
/// derived shape, refined by `hints`, came out as `refined`; and the
/// commitment afterwards.
pub open spec fn establish_step(
    live: DrawingConf,
    committed: Committed,
    hints: Hints,
    refined: Result<Schema, String>,
) -> (Result<(), GateError>, Committed) {
    if derived_shape(live.data) is None {
        (Err(GateError::EmptyList), committed)
    } else {
        match refined {
            Err(h) => (Err(GateError::Hint(h)), committed),
            Ok(s) => (Ok(()), Some((s.view(), hints))),
        }
    }
}

/// The outcome of proposing the parsed candidate `candidate`; and the live
/// value afterwards.
pub open spec fn update_step(
    live: DrawingConf,
    committed: Committed,
    candidate: Result<DrawingConf, String>,
    refined: Result<Schema, String>,
) -> (Result<(), GateError>, DrawingConf) {
    match candidate {
        Err(p) => (Err(GateError::Parse(p)), live),
        Ok(c) => match gate(committed, c, refined) {
            Ok(()) => (Ok(()), c),
            Err(e) => (Err(e), live),
        },
    }
}

pub open spec fn refined_wf(refined: Result<Schema, String>) -> bool {
    match refined {
        Ok(s) => s.wf(),
        Err(_) => true,
    }
}

/// Before any commitment nothing is refused: every candidate that parsed is
/// accepted, whatever its shape, and becomes the live value.
pub proof fn lemma_gate_open_before_commit(
    live: DrawingConf,
    candidate: DrawingConf,
    refined: Result<Schema, String>,
)
    ensures
        update_step(live, None, Ok(candidate), refined) == (Ok::<(), GateError>(()), candidate),
{
}

/// After a commitment, a candidate whose refined shape differs from the
/// committed one is refused as a mismatch and the live value stays.
pub proof fn lemma_gate_enforced(
    live: DrawingConf,
    committed: SchemaView,
    hints: Hints,
    candidate: DrawingConf,
    refined: Schema,
)
    requires
        derived_shape(candidate.data) is Some,
        refined.view() != committed,
    ensures
        update_step(live, Some((committed, hints)), Ok(candidate), Ok(refined)) == (Err::<(), GateError>(
            GateError::SchemaMismatch,
        ), live),
{
}

/// Once a schema is committed, a new value reaches the live slot only when
/// it parsed, derives a shape, and its refined shape equals the committed one.
pub proof fn lemma_commit_guards_live(
    live: DrawingConf,
    committed: SchemaView,
    hints: Hints,
    candidate: Result<DrawingConf, String>,
    refined: Result<Schema, String>,
)
    ensures
        ({
            let (r, next) = update_step(live, Some((committed, hints)), candidate, refined);
            next == live || (r is Ok && candidate == Ok::<DrawingConf, String>(next)
                && derived_shape(next.data) is Some && (refined matches Ok(x) && x.view()
                == committed))
        }),
{
}

/// Establishing twice in a row with the same hints, and so the same refined
/// shape, gives the same outcome and the same commitment.
pub proof fn lemma_reestablish_idempotent(
    live: DrawingConf,
    committed: Committed,
    hints: Hints,
    refined: Result<Schema, String>,
)
    ensures
        ({
            let (r1, c1) = establish_step(live, committed, hints, refined);
            let (r2, c2) = establish_step(live, c1, hints, refined);
            r1 == r2 && c1 == c2
        }),
{
}

/// A failed establishment, by an unresolved hint or an empty list, leaves
/// the previous commitment as it was.
pub proof fn lemma_establish_failure_isolated(
    live: DrawingConf,
    committed: Committed,
    hints: Hints,
    refined: Result<Schema, String>,
)
    ensures
        ({
            let (r, c) = establish_step(live, committed, hints, refined);
            r is Err ==> c == committed
        }),
        refined is Err ==> establish_step(live, committed, hints, refined).0 is Err,
{
}

/// The committed baseline against which candidates are checked.
pub struct SchemaInfo {
    pub schema: Schema,
    pub gui_hints: Hints,
}

impl SchemaInfo {
    /// Checks the candidate `c`, whose derived shape refined by this
    /// baseline's hints came out as `refined`.
    pub fn check_conf(&self, c: &DrawingConf, refined: &Result<Schema, String>) -> (r: Result<(), GateError>)
        requires
            self.schema.wf(),
            refined_wf(*refined),
        ensures
            r == gate(Some((self.schema.view(), self.gui_hints)), *c, *refined),
    {
        match c.to_schema() {
            Err(e) => return Err(e),
            Ok(_) => {},
        }
        match refined {
            Err(h) => Err(GateError::Hint(h.clone())),
            Ok(s) => if self.schema.equal(s) {
                Ok(())
            } else {
                Err(GateError::SchemaMismatch)
            },
        }
    }
}

/// The live configuration and, once a GUI has been generated, the schema
/// that every later update must keep.
pub struct MurreletModel {
    live: DrawingConf,
    schema: Option<SchemaInfo>,
}

impl MurreletModel {
    pub closed spec fn live(&self) -> DrawingConf {
        self.live
    }

    pub closed spec fn committed(&self) -> Committed {
        match self.schema {
            None => None,
            Some(info) => Some((info.schema.view(), info.gui_hints)),
        }
    }

    pub closed spec fn wf(&self) -> bool {
        match self.schema {
            None => true,
            Some(info) => info.schema.wf(),
        }
    }

    /// Builds a model from the parsed initial configuration; a parse error
    /// is handed back as the result's message.
    pub fn new(parsed: Result<DrawingConf, String>) -> (r: WasmMurreletModelResult)
        ensures
            match parsed {
                Ok(c) => r.model() matches Some(m) && m.live() == c && m.committed() is None
                    && m.wf(),
                Err(e) => r.model() is None && r.message() == e,
            },
    {
        match parsed {
            Ok(c) => WasmMurreletModelResult::ok(MurreletModel { live: c, schema: None }),
            Err(e) => WasmMurreletModelResult::err(e),
        }
    }

    /// Commits the live value's shape as refined by `hints` (`refined` is
    /// the hint resolver's outcome on that shape); on failure the previous
    /// commitment stays.
    pub fn update_schema(&mut self, hints: Hints, refined: Result<Schema, String>) -> (r: Result<(), GateError>)
        requires
            old(self).wf(),
            refined_wf(refined),
        ensures
            final(self).wf(),
            final(self).live() == old(self).live(),
            (r, final(self).committed()) == establish_step(
                old(self).live(),
                old(self).committed(),
                hints,
                refined,
            ),
    {
        match self.live.to_schema() {
            Err(e) => return Err(e),
            Ok(_) => {},
        }
        match refined {
            Err(h) => Err(GateError::Hint(h)),
            Ok(s) => {
                self.schema = Some(SchemaInfo { schema: s, gui_hints: hints });
                Ok(())
            },
        }
    }

    /// Checks a parsed candidate against the committed schema, if any;
    /// before any commitment every candidate passes, even one that did not
    /// parse.
    pub fn check_schema(&self, candidate: &Result<DrawingConf, String>, refined: &Result<Schema, String>) -> (r: Result<(), GateError>)
        requires
            self.wf(),
            refined_wf(*refined),
        ensures
            r == match self.committed() {
                None => Ok(()),
                Some(_) => match *candidate {
                    Err(p) => Err(GateError::Parse(p)),
                    Ok(c) => gate(self.committed(), c, *refined),
                },
            },
    {
        match &self.schema {
            None => Ok(()),
            Some(info) => match candidate {
                Err(p) => Err(GateError::Parse(p.clone())),
                Ok(c) => info.check_conf(c, refined),
            },
        }
    }

    /// Replaces the live value by the parsed candidate when it passes the
    /// gate; otherwise nothing changes.
    pub fn update_config(&mut self, candidate: Result<DrawingConf, String>, refined: Result<Schema, String>) -> (r: Result<(), GateError>)
        requires
            old(self).wf(),
            refined_wf(refined),
        ensures
            final(self).wf(),
            final(self).committed() == old(self).committed(),
            (r, final(self).live()) == update_step(
                old(self).live(),
                old(self).committed(),
                candidate,
                refined,
            ),
    {
        let checked = self.check_schema(&candidate, &refined);
        match checked {
            Err(e) => Err(e),
            Ok(()) => match candidate {
                Err(p) => Err(GateError::Parse(p)),
                Ok(c) => {
                    self.live = c;
                    Ok(())
                },
            },
        }
    }

    /// The live configuration.
    pub fn conf(&self) -> (r: &DrawingConf)
        ensures
            *r == self.live(),
    {
        &self.live
    }

    /// The committed schema, if any.
    pub fn committed_schema(&self) -> (r: Option<&Schema>)
        requires
            self.wf(),
        ensures
            match self.committed() {
                None => r is None,
                Some((s, _)) => r matches Some(x) && x.view() == s && x.wf(),
            },
    {
        match &self.schema {
            None => None,
            Some(info) => Some(&info.schema),
        }
    }

    /// The hints of the commitment, if any.
    pub fn committed_hints(&self) -> (r: Option<&Hints>)
        ensures
            match self.committed() {
                None => r is None,
                Some((_, h)) => r == Some(&h),
            },
    {
        match &self.schema {
            None => None,
            Some(info) => Some(&info.gui_hints),
        }
    }
}

/// Either a model or the message of the error that prevented building it.
pub struct WasmMurreletModelResult {
    m: Option<MurreletModel>,
    err: String,
}

impl WasmMurreletModelResult {
    pub closed spec fn model(&self) -> Option<MurreletModel> {
        self.m
    }

    pub closed spec fn message(&self) -> String {
        self.err
    }

    fn ok(m: MurreletModel) -> (r: WasmMurreletModelResult)
        ensures
            r.model() == Some(m),
    {
        WasmMurreletModelResult { m: Some(m), err: String::new() }
    }

    fn err(err: String) -> (r: WasmMurreletModelResult)
        ensures
            r.model() is None,
            r.message() == err,
    {
        WasmMurreletModelResult { m: None, err }
    }

    pub fn is_err(&self) -> (r: bool)
        ensures
            r == self.model() is None,
    {
        self.m.is_none()
    }

    pub fn err_msg(self) -> (r: String)
        ensures
            r == self.message(),
    {
        self.err
    }

    /// The model; only to be asked of a result that is not an error.
    pub fn to_model(self) -> (r: MurreletModel)
        requires
            self.model() is Some,
        ensures
            Some(r) == self.model(),
    {
        self.m.unwrap()
    }
}

} // verus!
