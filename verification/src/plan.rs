//! Logical plans, as far as they decide what happens around their execution.
use crate::file_type::{config_file_type_from_str, file_type_named, ConfigFileType};
use crate::text::lower_form;
use vstd::prelude::*;

verus! {

/// The shape of a logical plan. `T` is text, `O` are the options of a table or a copy, which are
/// handed on unread.
#[derive(Debug, PartialEq, Eq)]
pub enum PlanShape<T, O> {
    Explain,
    DescribeTable,
    Analyze,
    /// `CREATE EXTERNAL TABLE`.
    CreateExternalTable { location: T, file_type: T, options: O },
    /// `COPY ... TO`.
    Copy { output_url: T, extension: T, options: O },
    Other,
}

impl<O> View for PlanShape<String, O> {
    type V = PlanShape<Seq<char>, O>;

    open spec fn view(&self) -> PlanShape<Seq<char>, O> {
        match *self {
            PlanShape::Explain => PlanShape::Explain,
            PlanShape::DescribeTable => PlanShape::DescribeTable,
            PlanShape::Analyze => PlanShape::Analyze,
            PlanShape::CreateExternalTable { location, file_type, options } =>
                PlanShape::CreateExternalTable {
                location: location@,
                file_type: file_type@,
                options,
            },
            PlanShape::Copy { output_url, extension, options } => PlanShape::Copy {
                output_url: output_url@,
                extension: extension@,
                options,
            },
            PlanShape::Other => PlanShape::Other,
        }
    }
}

/// A place whose object store has to be registered before a plan can run.
#[derive(Debug, PartialEq, Eq)]
pub struct Registration<T, O> {
    pub location: T,
    pub options: O,
    pub format: Option<ConfigFileType>,
    pub resolve_region: bool,
}

impl<O> View for Registration<String, O> {
    type V = Registration<Seq<char>, O>;

    open spec fn view(&self) -> Registration<Seq<char>, O> {
        Registration {
            location: self.location@,
            options: self.options,
            format: self.format,
            resolve_region: self.resolve_region,
        }
    }
}

/// The format of the files that a plan names, `None` for a custom format or where it names no files.
pub open spec fn plan_format<O>(plan: PlanShape<Seq<char>, O>) -> Option<ConfigFileType> {
    match plan {
        PlanShape::CreateExternalTable { file_type, .. } => file_type_named(lower_form(file_type)),
        PlanShape::Copy { extension, .. } => file_type_named(lower_form(extension)),
        _ => None,
    }
}

/// What has to be registered for a plan whose files have the given format.
///
/// An external table is registered under its location, and its region is resolved where that is
/// asked for; the target of a copy is registered under its URL, and its region is never resolved.
/// No other plan needs a registration.
pub open spec fn registration<O>(
    plan: PlanShape<Seq<char>, O>,
    resolve_region: bool,
    format: Option<ConfigFileType>,
) -> Option<Registration<Seq<char>, O>> {
    match plan {
        PlanShape::CreateExternalTable { location, options, .. } => Some(
            Registration { location, options, format, resolve_region },
        ),
        PlanShape::Copy { output_url, options, .. } => Some(
            Registration { location: output_url, options, format, resolve_region: false },
        ),
        _ => None,
    }
}

/// The format of the files that the plan names.
pub fn format_of_plan<O>(plan: &PlanShape<String, O>) -> (r: Option<ConfigFileType>)
    ensures
        r == plan_format(plan@),
{
    match plan {
        PlanShape::CreateExternalTable { file_type, .. } => config_file_type_from_str(
            file_type.as_str(),
        ),
        PlanShape::Copy { extension, .. } => config_file_type_from_str(extension.as_str()),
        _ => None,
    }
}

/// What has to be registered for a plan whose files have the given format.
pub fn registration_for<O>(
    plan: PlanShape<String, O>,
    resolve_region: bool,
    format: Option<ConfigFileType>,
) -> (r: Option<Registration<String, O>>)
    ensures
        match r {
            Some(found) => registration(plan@, resolve_region, format) == Some(found@),
            None => registration(plan@, resolve_region, format) is None,
        },
{
    match plan {
        PlanShape::CreateExternalTable { location, options, .. } => Some(
            Registration { location, options, format, resolve_region },
        ),
        PlanShape::Copy { output_url, options, .. } => Some(
            Registration { location: output_url, options, format, resolve_region: false },
        ),
        _ => None,
    }
}

/// What the creation of a plan waits for.
#[derive(Clone, Copy, Debug, PartialEq, Eq, Structural)]
pub enum CreationPhase {
    /// The plan of the statement.
    Planning,
    /// The registration of the object store that the plan needs.
    Registering,
    Done,
}

/// The creation of the plan of one statement.
#[derive(Clone, Copy, Debug, PartialEq, Eq, Structural)]
pub struct PlanCreation {
    pub resolve_region: bool,
    pub phase: CreationPhase,
}

/// What happened.
#[derive(Debug, PartialEq, Eq)]
pub enum CreationEvent<T, O, E> {
    /// The statement was planned, or could not be.
    Planned(Result<PlanShape<T, O>, E>),
    /// The object store was registered, or could not be.
    Registered(Result<(), E>),
}

impl<O, E> View for CreationEvent<String, O, E> {
    type V = CreationEvent<Seq<char>, O, E>;

    open spec fn view(&self) -> CreationEvent<Seq<char>, O, E> {
        match *self {
            CreationEvent::Planned(Ok(plan)) => CreationEvent::Planned(Ok(plan@)),
            CreationEvent::Planned(Err(error)) => CreationEvent::Planned(Err(error)),
            CreationEvent::Registered(outcome) => CreationEvent::Registered(outcome),
        }
    }
}

/// What to do next.
#[derive(Debug, PartialEq, Eq)]
pub enum CreationAction<T, O, E> {
    /// Register the object store of this place.
    Register(Registration<T, O>),
    /// The plan is ready, or there is none.
    Finish(Result<(), E>),
    /// The event was not awaited: nothing changed.
    Unexpected,
}

impl<O, E> View for CreationAction<String, O, E> {
    type V = CreationAction<Seq<char>, O, E>;

    open spec fn view(&self) -> CreationAction<Seq<char>, O, E> {
        match *self {
            CreationAction::Register(place) => CreationAction::Register(place@),
            CreationAction::Finish(outcome) => CreationAction::Finish(outcome),
            CreationAction::Unexpected => CreationAction::Unexpected,
        }
    }
}

/// One step of the creation of a plan: the plan is made, and what it needs is registered before it
/// is handed out. The first error ends the creation.
pub open spec fn creation_step<O, E>(
    at: PlanCreation,
    event: CreationEvent<Seq<char>, O, E>,
    format: Option<ConfigFileType>,
) -> (PlanCreation, CreationAction<Seq<char>, O, E>) {
    let done = PlanCreation { phase: CreationPhase::Done, ..at };
    match (at.phase, event) {
        (CreationPhase::Planning, CreationEvent::Planned(Err(error))) => (
            done,
            CreationAction::Finish(Err(error)),
        ),
        (CreationPhase::Planning, CreationEvent::Planned(Ok(plan))) => match registration(
            plan,
            at.resolve_region,
            format,
        ) {
            Some(place) => (
                PlanCreation { phase: CreationPhase::Registering, ..at },
                CreationAction::Register(place),
            ),
            None => (done, CreationAction::Finish(Ok(()))),
        },
        (CreationPhase::Registering, CreationEvent::Registered(outcome)) => (
            done,
            CreationAction::Finish(outcome),
        ),
        _ => (at, CreationAction::Unexpected),
    }
}

/// The format of the files of the plan that an event brings.
pub open spec fn event_format<O, E>(event: CreationEvent<Seq<char>, O, E>) -> Option<
    ConfigFileType,
> {
    match event {
        CreationEvent::Planned(Ok(plan)) => plan_format(plan),
        _ => None,
    }
}

impl PlanCreation {
    /// The creation of a plan, at its beginning: the statement is to be planned.
    pub fn new(resolve_region: bool) -> (r: Self)
        ensures
            r == (PlanCreation { resolve_region, phase: CreationPhase::Planning }),
    {
        PlanCreation { resolve_region, phase: CreationPhase::Planning }
    }

    /// One step, where the files of the plan have the given format.
    pub fn step_with_format<O, E>(
        self,
        event: CreationEvent<String, O, E>,
        format: Option<ConfigFileType>,
    ) -> (r: (Self, CreationAction<String, O, E>))
        ensures
            (r.0, r.1@) == creation_step(self, event@, format),
    {
        let done = PlanCreation { resolve_region: self.resolve_region, phase: CreationPhase::Done };
        match (self.phase, event) {
            (CreationPhase::Planning, CreationEvent::Planned(Err(error))) => (
                done,
                CreationAction::Finish(Err(error)),
            ),
            (CreationPhase::Planning, CreationEvent::Planned(Ok(plan))) => {
                match registration_for(plan, self.resolve_region, format) {
                    Some(place) => (
                        PlanCreation {
                            resolve_region: self.resolve_region,
                            phase: CreationPhase::Registering,
                        },
                        CreationAction::Register(place),
                    ),
                    None => (done, CreationAction::Finish(Ok(()))),
                }
            },
            (CreationPhase::Registering, CreationEvent::Registered(outcome)) => (
                done,
                CreationAction::Finish(outcome),
            ),
            _ => (self, CreationAction::Unexpected),
        }
    }

    /// One step.
    pub fn step<O, E>(self, event: CreationEvent<String, O, E>) -> (r: (
        Self,
        CreationAction<String, O, E>,
    ))
        ensures
            (r.0, r.1@) == creation_step(self, event@, event_format(event@)),
    {
        let format = match &event {
            CreationEvent::Planned(Ok(plan)) => format_of_plan(plan),
            _ => None,
        };
        self.step_with_format(event, format)
    }
}

/// Only external tables and copies are registered: a table under its location, with its region
/// resolved exactly where that is asked for, and a copy under its URL, with its region never
/// resolved. Each is registered with its own options and the given format.
pub proof fn law_what_is_registered<O>(
    plan: PlanShape<Seq<char>, O>,
    resolve_region: bool,
    format: Option<ConfigFileType>,
)
    ensures
        registration(plan, resolve_region, format) is Some <==> plan is CreateExternalTable
            || plan is Copy,
        plan is CreateExternalTable || plan is Copy ==> registration(
            plan,
            resolve_region,
            format,
        )->0.format == format,
        plan matches PlanShape::CreateExternalTable { location, options, .. } ==> {
            &&& registration(plan, resolve_region, format)->0.location == location
            &&& registration(plan, resolve_region, format)->0.options == options
            &&& registration(plan, resolve_region, format)->0.resolve_region == resolve_region
        },
        plan matches PlanShape::Copy { output_url, options, .. } ==> {
            &&& registration(plan, resolve_region, format)->0.location == output_url
            &&& registration(plan, resolve_region, format)->0.options == options
            &&& !registration(plan, resolve_region, format)->0.resolve_region
        },
{
}

/// A plan is handed out only once what it needs is registered, and every error of planning or
/// registering is the outcome of the creation.
pub proof fn law_registered_before_handed_out<O, E>(
    at: PlanCreation,
    event: CreationEvent<Seq<char>, O, E>,
    format: Option<ConfigFileType>,
)
    ensures
        ({
            let (next, action) = creation_step(at, event, format);
            &&& action matches CreationAction::Finish(Ok(_)) ==> {
                ||| event matches CreationEvent::Planned(Ok(plan)) && !(plan is CreateExternalTable)
                    && !(plan is Copy)
                ||| at.phase is Registering && event is Registered
            }
            &&& action is Finish ==> next.phase is Done
            &&& at.phase is Planning ==> (event matches CreationEvent::Planned(Err(error))
                ==> action == CreationAction::<Seq<char>, O, E>::Finish(Err(error)))
            &&& at.phase is Registering ==> (event matches CreationEvent::Registered(Err(error))
                ==> action == CreationAction::<Seq<char>, O, E>::Finish(Err(error)))
            &&& at.phase is Done ==> next == at && action is Unexpected
        }),
{
}

/// The event tells what became of the registration that was asked for.
pub open spec fn tells_of<O, E>(
    action: CreationAction<Seq<char>, O, E>,
    event: CreationEvent<Seq<char>, O, E>,
) -> bool {
    action is Register && event is Registered
}

/// The creation of a plan begins with the plan itself; it asks for one registration at most and takes
/// in what became of it, and nothing else: any other event is not awaited and changes nothing.
pub proof fn law_one_thing_at_a_time<O, E>(
    at: PlanCreation,
    event: CreationEvent<Seq<char>, O, E>,
    next_event: CreationEvent<Seq<char>, O, E>,
)
    ensures
        at.phase is Planning ==> (creation_step(at, event, event_format(event)).1 is Unexpected
            <==> !(event is Planned)),
        ({
            let (next, action) = creation_step(at, event, event_format(event));
            &&& next.resolve_region == at.resolve_region
            &&& if action is Unexpected {
                next == at
            } else {
                creation_step(next, next_event, event_format(next_event)).1 is Unexpected
                    <==> !tells_of(action, next_event)
            }
        }),
{
}

/// The name is that of the format, in any case.
pub open spec fn names_format(name: Seq<char>, format: ConfigFileType) -> bool {
    match format {
        ConfigFileType::CSV => crate::text::same_ignoring_ascii_case(name, "csv"@),
        ConfigFileType::JSON => crate::text::same_ignoring_ascii_case(name, "json"@),
        ConfigFileType::PARQUET => crate::text::same_ignoring_ascii_case(name, "parquet"@),
    }
}

proof fn lemma_named_format(name: Seq<char>, format: ConfigFileType)
    requires
        crate::text::ascii_text(name),
    ensures
        file_type_named(lower_form(name)) == Some(format) <==> names_format(name, format),
{
    reveal_strlit("csv");
    reveal_strlit("json");
    reveal_strlit("parquet");
    crate::file_type::law_file_types_ignore_case(name);
    let lower = lower_form(name);
    assert(lower =~= name.map_values(|c: char| crate::text::ascii_lower(c)));
    if file_type_named(lower) == Some(format) {
        let full = match format {
            ConfigFileType::CSV => "csv"@,
            ConfigFileType::JSON => "json"@,
            ConfigFileType::PARQUET => "parquet"@,
        };
        assert(lower == full);
        assert forall|i: int| 0 <= i < name.len() implies crate::text::ascii_lower(
            #[trigger] name[i],
        ) == crate::text::ascii_lower(full[i]) by {
            assert(lower[i] == full[i]);
            crate::text::law_small_letters(name[i]);
        }
    }
}

/// What becomes of a plan: an external table is registered under its location and a copy under its
/// URL, each with its own options and with the format that its file type or extension names, in any
/// case, or none where it names none; the region is resolved for a table exactly where that is asked
/// for, and never for a copy. Every other plan is handed out at once. A plan that could not be made is
/// the error it failed with.
pub proof fn law_what_becomes_of_a_plan<O, E>(
    resolve_region: bool,
    planned: Result<PlanShape<Seq<char>, O>, E>,
    format: ConfigFileType,
)
    ensures
        ({
            let at = PlanCreation { resolve_region, phase: CreationPhase::Planning };
            let event = CreationEvent::<Seq<char>, O, E>::Planned(planned);
            let action = creation_step(at, event, event_format(event)).1;
            match planned {
                Err(error) => action == CreationAction::<Seq<char>, O, E>::Finish(Err(error)),
                Ok(PlanShape::CreateExternalTable { location, file_type, options }) => {
                    &&& action is Register
                    &&& action->Register_0.location == location
                    &&& action->Register_0.options == options
                    &&& action->Register_0.resolve_region == resolve_region
                    &&& crate::text::ascii_text(file_type) ==> (action->Register_0.format == Some(
                        format,
                    ) <==> names_format(file_type, format))
                },
                Ok(PlanShape::Copy { output_url, extension, options }) => {
                    &&& action is Register
                    &&& action->Register_0.location == output_url
                    &&& action->Register_0.options == options
                    &&& !action->Register_0.resolve_region
                    &&& crate::text::ascii_text(extension) ==> (action->Register_0.format == Some(
                        format,
                    ) <==> names_format(extension, format))
                },
                Ok(_) => action == CreationAction::<Seq<char>, O, E>::Finish(Ok(())),
            }
        }),
{
    match planned {
        Ok(PlanShape::CreateExternalTable { file_type, .. }) => {
            if crate::text::ascii_text(file_type) {
                lemma_named_format(file_type, format);
            }
        },
        Ok(PlanShape::Copy { extension, .. }) => {
            if crate::text::ascii_text(extension) {
                lemma_named_format(extension, format);
            }
        },
        _ => {},
    }
}

/// A table and a copy whose file type and extension are the same text have the same format, whatever
/// the text is.
pub proof fn law_tables_and_copies_agree_on_formats<O>(
    name: Seq<char>,
    location: Seq<char>,
    output_url: Seq<char>,
    table_options: O,
    copy_options: O,
)
    ensures
        plan_format(
            PlanShape::CreateExternalTable { location, file_type: name, options: table_options },
        ) == plan_format(PlanShape::Copy { output_url, extension: name, options: copy_options }),
        plan_format(
            PlanShape::Copy { output_url, extension: name, options: copy_options },
        ) == file_type_named(lower_form(name)),
{
}

/// Where a registration was asked for, what becomes of it is what becomes of the plan.
pub proof fn law_the_registration_decides<O, E>(
    resolve_region: bool,
    plan: PlanShape<Seq<char>, O>,
    outcome: Result<(), E>,
)
    requires
        plan is CreateExternalTable || plan is Copy,
    ensures
        ({
            let at = PlanCreation { resolve_region, phase: CreationPhase::Planning };
            let planned = CreationEvent::<Seq<char>, O, E>::Planned(Ok(plan));
            let registered = CreationEvent::<Seq<char>, O, E>::Registered(outcome);
            let asked = creation_step(at, planned, event_format(planned)).0;
            creation_step(asked, registered, event_format(registered)).1 == CreationAction::<
                Seq<char>,
                O,
                E,
            >::Finish(outcome)
        }),
{
}

/// Plans, places and what is done about them are seen whole: no text in them is changed.
pub proof fn law_plans_are_seen_whole<O, E>(
    plan: PlanShape<String, O>,
    place: Registration<String, O>,
    outcome: Result<(), E>,
    failure: E,
)
    ensures
        match plan {
            PlanShape::Explain => plan@ is Explain,
            PlanShape::DescribeTable => plan@ is DescribeTable,
            PlanShape::Analyze => plan@ is Analyze,
            PlanShape::CreateExternalTable { location, file_type, options } => plan@ == (
            PlanShape::CreateExternalTable {
                location: location@,
                file_type: file_type@,
                options,
            }),
            PlanShape::Copy { output_url, extension, options } => plan@ == (PlanShape::Copy {
                output_url: output_url@,
                extension: extension@,
                options,
            }),
            PlanShape::Other => plan@ is Other,
        },
        place@.location == place.location@,
        place@.options == place.options,
        place@.format == place.format,
        place@.resolve_region == place.resolve_region,
        CreationEvent::<String, O, E>::Planned(Ok(plan))@ == CreationEvent::<
            Seq<char>,
            O,
            E,
        >::Planned(Ok(plan@)),
        CreationEvent::<String, O, E>::Planned(Err(failure))@ == CreationEvent::<
            Seq<char>,
            O,
            E,
        >::Planned(Err(failure)),
        CreationEvent::<String, O, E>::Registered(outcome)@ == CreationEvent::<
            Seq<char>,
            O,
            E,
        >::Registered(outcome),
        CreationAction::<String, O, E>::Register(place)@ == CreationAction::<
            Seq<char>,
            O,
            E,
        >::Register(place@),
        CreationAction::<String, O, E>::Finish(outcome)@ == CreationAction::<
            Seq<char>,
            O,
            E,
        >::Finish(outcome),
        CreationAction::<String, O, E>::Unexpected@ is Unexpected,
{
}

} // verus!
