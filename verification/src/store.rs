//! The registration of an object store for the place where a table or a copy lies.
use crate::file_type::ConfigFileType;
use crate::plan::Registration;
use datafusion_common::DataFusionError;
use datafusion_datasource::ListingTableUrl;
use vstd::prelude::*;

verus! {

/// DataFusion's URL of the files of a table. It is handed on unread; its scheme is kept beside it.
#[verifier::external_type_specification]
#[verifier::external_body]
pub struct ExListingTableUrl(ListingTableUrl);

/// A small letter.
pub open spec fn small_letter(c: char) -> bool {
    'a' as u32 <= c as u32 <= 'z' as u32
}

/// A letter, a digit, or one of `_`, `-` and `.`.
pub open spec fn plain_char(c: char) -> bool {
    small_letter(c) || 'A' as u32 <= c as u32 <= 'Z' as u32 || crate::text::digit(c) || c == '_' || c == '-' || c
        == '.'
}

/// The first `n` characters of a location are the scheme of a URL: a small letter and one or more
/// small letters or digits, with a colon behind them.
pub open spec fn has_scheme(location: Seq<char>, n: int) -> bool {
    &&& 2 <= n < location.len()
    &&& location[n] == ':'
    &&& small_letter(location[0])
    &&& forall|i: int| 0 <= i < n ==> small_letter(#[trigger] location[i]) || crate::text::digit(location[i])
}

/// A host that a URL of the scheme can have, whatever else there is to it: none for a file, names
/// in small letters with dots between them on the web, and any plain characters in other schemes,
/// where the host is the name of a bucket.
pub open spec fn plain_host(scheme: Seq<char>, host: Seq<char>) -> bool {
    if scheme == "file"@ {
        host.len() == 0
    } else if scheme == "http"@ || scheme == "https"@ || scheme == "ws"@ || scheme == "wss"@
        || scheme == "ftp"@ {
        &&& host.len() > 0
        &&& forall|i: int| 0 <= i < host.len() ==> small_letter(#[trigger] host[i]) || host[i] == '.'
    } else {
        &&& host.len() > 0
        &&& forall|i: int| 0 <= i < host.len() ==> plain_char(#[trigger] host[i])
    }
}

/// A path of plain segments: each begins with a slash, and after a slash comes neither another slash
/// nor a dot.
pub open spec fn plain_path(path: Seq<char>) -> bool {
    &&& path.len() > 0 ==> path[0] == '/'
    &&& forall|i: int|
        0 <= i < path.len() ==> plain_char(#[trigger] path[i]) || path[i] == '/' || path[i] == '='
    &&& forall|i: int|
        0 <= i < path.len() - 1 && #[trigger] path[i] == '/' ==> path[i + 1] != '/' && path[i + 1]
            != '.'
}

/// The location is a URL of a scheme of `n` characters and, up to the character of index `m`, a
/// host, with a path behind it.
pub open spec fn plain_url_at(location: Seq<char>, n: int, m: int) -> bool {
    &&& has_scheme(location, n)
    &&& n + 3 <= m <= location.len()
    &&& location[n + 1] == '/'
    &&& location[n + 2] == '/'
    &&& plain_host(location.take(n), location.subrange(n + 3, m))
    &&& plain_path(location.skip(m))
}

/// A URL that is plain enough to be one everywhere, such as `s3://bucket/path/file.parquet`. Its
/// length fits the offsets that a URL is kept with.
pub open spec fn is_plain_url(location: Seq<char>) -> bool {
    &&& location.len() <= 0x7fff_ffff
    &&& exists|n: int, m: int| plain_url_at(location, n, m)
}

/// A location without a colon, which is a path of the local file system.
pub open spec fn is_local_path(location: Seq<char>) -> bool {
    !location.contains(':')
}

/// What is known of the scheme of the URL of a location.
pub open spec fn scheme_fits(location: Seq<char>, scheme: Seq<char>) -> bool {
    &&& forall|n: int| #[trigger] has_scheme(location, n) ==> scheme == location.take(n)
    &&& is_local_path(location) ==> scheme == "file"@
}

/// The URL that `ListingTableUrl::parse` makes of a location that begins with a scheme, or its error
/// where there is none.
pub uninterp spec fn table_url(location: Seq<char>) -> Result<ListingTableUrl, DataFusionError>;

/// `ListingTableUrl::parse`, with `ListingTableUrl::scheme` of what it returns: a location that
/// begins with a scheme gives the URL, or the error, that [`table_url`] names, and a URL of that
/// scheme; one without a colon gives a `file` URL. The call succeeds on every plain URL, and fails on
/// the empty text.
///
/// A path is resolved against the working directory and looked up on disk, so nothing is claimed of
/// when the call succeeds on one, nor of the rest of its URL. Nor is anything claimed of when it
/// succeeds on URLs that are not plain, for which the grammar of URLs decides.
#[verifier::external_body]
fn parse_table_url(location: &str) -> (r: Result<(String, ListingTableUrl), DataFusionError>)
    ensures
        forall|n: int| #[trigger]
            has_scheme(location@, n) ==> match r {
                Ok((_, url)) => table_url(location@) == Ok::<ListingTableUrl, DataFusionError>(url),
                Err(error) => table_url(location@) == Err::<ListingTableUrl, DataFusionError>(error),
            },
        r matches Ok((scheme, _)) ==> scheme_fits(location@, scheme@),
        is_plain_url(location@) ==> r is Ok,
        location@.len() == 0 ==> r is Err,
{
    let url = ListingTableUrl::parse(location)?;
    Ok((url.scheme().to_owned(), url))
}

/// What the registration of a store waits for.
#[derive(Clone, Copy, Debug, PartialEq, Eq, Structural)]
pub enum SetupPhase {
    /// The table options of the session, which are to know the scheme.
    Extending,
    /// The copy of the table options of the session.
    Copying,
    /// The format of the copy.
    Formatting,
    /// The options of the copy.
    Configuring,
    /// The object store of the place.
    Finding,
    /// The registration of the store.
    Registering,
    Done,
}

/// The registration of the object store of one place. `T` is text, `U` a URL, `O` are options.
#[derive(Debug, PartialEq, Eq)]
pub struct StoreSetup<T, U, O> {
    pub scheme: T,
    pub url: U,
    pub options: O,
    pub format: Option<ConfigFileType>,
    pub resolve_region: bool,
    pub phase: SetupPhase,
}

impl<U, O> View for StoreSetup<String, U, O> {
    type V = StoreSetup<Seq<char>, U, O>;

    open spec fn view(&self) -> StoreSetup<Seq<char>, U, O> {
        StoreSetup {
            scheme: self.scheme@,
            url: self.url,
            options: self.options,
            format: self.format,
            resolve_region: self.resolve_region,
            phase: self.phase,
        }
    }
}

/// What happened.
#[derive(Debug, PartialEq, Eq)]
pub enum SetupEvent<E> {
    /// The table options of the session know the scheme.
    Extended,
    /// There is a copy of the table options of the session.
    Copied,
    /// The copy has its format.
    Formatted,
    /// The options were set in the copy, or could not be.
    Configured(Result<(), E>),
    /// There is a store, or there is none.
    Found(Result<(), E>),
    /// The store was registered.
    Registered,
}

/// What to do next, with what the setup holds.
#[derive(Debug, PartialEq, Eq)]
pub enum SetupAction<E> {
    /// Make the scheme known to the table options of the session.
    ExtendOptions,
    /// Copy the default table options of the session.
    CopyDefaults,
    /// Set the format of the copy.
    SetFormat(ConfigFileType),
    /// Set the options of the place in the copy.
    SetOptions,
    /// Find the store of the scheme and the URL, under the table options in the copy.
    FindStore,
    /// Register the store under the URL.
    RegisterStore,
    /// The place is registered, or is not.
    Finish(Result<(), E>),
    /// The event was not awaited: nothing changed.
    Unexpected,
}

/// The setup of a registration whose location has this scheme and this URL, at its beginning: the
/// scheme is to be made known to the table options.
pub open spec fn setup_start<U, O>(
    registration: Registration<Seq<char>, O>,
    scheme: Seq<char>,
    url: U,
) -> StoreSetup<Seq<char>, U, O> {
    StoreSetup {
        scheme,
        url,
        options: registration.options,
        format: registration.format,
        resolve_region: registration.resolve_region,
        phase: SetupPhase::Extending,
    }
}

/// One step, as far as the phase goes: the scheme, a copy of the table options, its format where
/// there is one, its options, the store, its registration. The first error ends it.
pub open spec fn setup_step<E>(
    format: Option<ConfigFileType>,
    phase: SetupPhase,
    event: SetupEvent<E>,
) -> (SetupPhase, SetupAction<E>) {
    match (phase, event) {
        (SetupPhase::Extending, SetupEvent::Extended) => (
            SetupPhase::Copying,
            SetupAction::CopyDefaults,
        ),
        (SetupPhase::Copying, SetupEvent::Copied) => match format {
            Some(format) => (SetupPhase::Formatting, SetupAction::SetFormat(format)),
            None => (SetupPhase::Configuring, SetupAction::SetOptions),
        },
        (SetupPhase::Formatting, SetupEvent::Formatted) => (
            SetupPhase::Configuring,
            SetupAction::SetOptions,
        ),
        (SetupPhase::Configuring, SetupEvent::Configured(Ok(_))) => (
            SetupPhase::Finding,
            SetupAction::FindStore,
        ),
        (SetupPhase::Finding, SetupEvent::Found(Ok(_))) => (
            SetupPhase::Registering,
            SetupAction::RegisterStore,
        ),
        (SetupPhase::Registering, SetupEvent::Registered) => (
            SetupPhase::Done,
            SetupAction::Finish(Ok(())),
        ),
        (SetupPhase::Configuring, SetupEvent::Configured(Err(error))) => (
            SetupPhase::Done,
            SetupAction::Finish(Err(error)),
        ),
        (SetupPhase::Finding, SetupEvent::Found(Err(error))) => (
            SetupPhase::Done,
            SetupAction::Finish(Err(error)),
        ),
        _ => (phase, SetupAction::Unexpected),
    }
}

/// Begins the registration of a place whose location has this scheme and this URL: first the scheme
/// is to be made known. A location that has none is not registered.
pub fn begin_setup<U, O, E>(
    registration: Registration<String, O>,
    located: Result<(String, U), E>,
) -> (r: Result<(StoreSetup<String, U, O>, SetupAction<E>), E>)
    ensures
        match located {
            Ok((scheme, url)) => r matches Ok((setup, action)) && setup@ == setup_start(
                registration@,
                scheme@,
                url,
            ) && action == SetupAction::<E>::ExtendOptions,
            Err(error) => r == Err::<(StoreSetup<String, U, O>, SetupAction<E>), E>(error),
        },
{
    match located {
        Ok((scheme, url)) => Ok(
            (
                StoreSetup {
                    scheme,
                    url,
                    options: registration.options,
                    format: registration.format,
                    resolve_region: registration.resolve_region,
                    phase: SetupPhase::Extending,
                },
                SetupAction::ExtendOptions,
            ),
        ),
        Err(error) => Err(error),
    }
}

/// Begins the registration of the object store of a place. A location that begins with a scheme has
/// the URL that DataFusion makes of it, or is refused with DataFusion's error. A plain URL is always a
/// location, and the empty text never is; whether a path has a URL, and which, can depend on the
/// local file system.
pub fn register_object_store_and_config_extensions<O>(registration: Registration<String, O>) -> (r:
    Result<
        (StoreSetup<String, ListingTableUrl, O>, SetupAction<DataFusionError>),
        DataFusionError,
    >)
    ensures
        forall|n: int| #[trigger]
            has_scheme(registration@.location, n) ==> match r {
                Ok((setup, _)) => table_url(registration@.location) == Ok::<
                    ListingTableUrl,
                    DataFusionError,
                >(setup.url),
                Err(error) => table_url(registration@.location) == Err::<
                    ListingTableUrl,
                    DataFusionError,
                >(error),
            },
        r matches Ok((setup, action)) ==> {
            &&& setup@ == setup_start(registration@, setup.scheme@, setup.url)
            &&& scheme_fits(registration@.location, setup.scheme@)
            &&& action == SetupAction::<DataFusionError>::ExtendOptions
        },
        is_plain_url(registration@.location) ==> r is Ok,
        registration@.location.len() == 0 ==> r is Err,
{
    let located = parse_table_url(registration.location.as_str());
    begin_setup(registration, located)
}

impl<U, O> StoreSetup<String, U, O> {
    /// One step.
    pub fn step<E>(self, event: SetupEvent<E>) -> (r: (Self, SetupAction<E>))
        ensures
            r.0@ == (StoreSetup {
                phase: setup_step(self.format, self.phase, event).0,
                ..self@
            }),
            r.1 == setup_step(self.format, self.phase, event).1,
    {
        let (phase, action) = match (self.phase, event) {
            (SetupPhase::Extending, SetupEvent::Extended) => (
                SetupPhase::Copying,
                SetupAction::CopyDefaults,
            ),
            (SetupPhase::Copying, SetupEvent::Copied) => match self.format {
                Some(format) => (SetupPhase::Formatting, SetupAction::SetFormat(format)),
                None => (SetupPhase::Configuring, SetupAction::SetOptions),
            },
            (SetupPhase::Formatting, SetupEvent::Formatted) => (
                SetupPhase::Configuring,
                SetupAction::SetOptions,
            ),
            (SetupPhase::Configuring, SetupEvent::Configured(Ok(_))) => (
                SetupPhase::Finding,
                SetupAction::FindStore,
            ),
            (SetupPhase::Finding, SetupEvent::Found(Ok(_))) => (
                SetupPhase::Registering,
                SetupAction::RegisterStore,
            ),
            (SetupPhase::Registering, SetupEvent::Registered) => (
                SetupPhase::Done,
                SetupAction::Finish(Ok(())),
            ),
            (SetupPhase::Configuring, SetupEvent::Configured(Err(error))) => (
                SetupPhase::Done,
                SetupAction::Finish(Err(error)),
            ),
            (SetupPhase::Finding, SetupEvent::Found(Err(error))) => (
                SetupPhase::Done,
                SetupAction::Finish(Err(error)),
            ),
            (_, _) => (self.phase, SetupAction::Unexpected),
        };
        (StoreSetup { phase, ..self }, action)
    }
}

/// Table options, as far as registrations make a difference to them: the schemes they know, and the
/// format and the options that were set in them.
pub struct TableOptionsState<O> {
    pub schemes: Seq<Seq<char>>,
    pub format: Option<ConfigFileType>,
    pub options: Option<O>,
}

/// A store, by what it was looked for with.
pub struct StoreState<U, O> {
    pub scheme: Seq<char>,
    pub url: U,
    pub table_options: TableOptionsState<O>,
    pub resolve_region: bool,
}

/// A session, as far as registrations make a difference to it.
pub struct SessionState<U, O> {
    /// The default table options.
    pub defaults: TableOptionsState<O>,
    /// The stores that were registered, each under its URL, in order.
    pub stores: Seq<StoreState<U, O>>,
}

/// A session, with what a registration works on.
pub struct Workplace<U, O> {
    pub session: SessionState<U, O>,
    /// The copy of the table options.
    pub copy: TableOptionsState<O>,
    /// The store that was looked for last.
    pub store: StoreState<U, O>,
}

/// What the work place is like once an action for the setup was carried out.
pub open spec fn carried_out<U, O, E>(
    at: Workplace<U, O>,
    setup: StoreSetup<Seq<char>, U, O>,
    action: SetupAction<E>,
) -> Workplace<U, O> {
    match action {
        SetupAction::ExtendOptions => Workplace {
            session: SessionState {
                defaults: TableOptionsState {
                    schemes: at.session.defaults.schemes.push(setup.scheme),
                    ..at.session.defaults
                },
                ..at.session
            },
            ..at
        },
        SetupAction::CopyDefaults => Workplace { copy: at.session.defaults, ..at },
        SetupAction::SetFormat(format) => Workplace {
            copy: TableOptionsState { format: Some(format), ..at.copy },
            ..at
        },
        SetupAction::SetOptions => Workplace {
            copy: TableOptionsState { options: Some(setup.options), ..at.copy },
            ..at
        },
        SetupAction::FindStore => Workplace {
            store: StoreState {
                scheme: setup.scheme,
                url: setup.url,
                table_options: at.copy,
                resolve_region: setup.resolve_region,
            },
            ..at
        },
        SetupAction::RegisterStore => Workplace {
            session: SessionState { stores: at.session.stores.push(at.store), ..at.session },
            ..at
        },
        SetupAction::Finish(_) => at,
        SetupAction::Unexpected => at,
    }
}

/// The phase after some events, from the beginning.
pub open spec fn setup_after<E>(
    format: Option<ConfigFileType>,
    events: Seq<SetupEvent<E>>,
) -> SetupPhase
    decreases events.len(),
{
    if events.len() == 0 {
        SetupPhase::Extending
    } else {
        setup_step(format, setup_after(format, events.drop_last()), events.last()).0
    }
}

/// The answer to the event of index `i`, from the beginning.
pub open spec fn setup_answer<E>(
    format: Option<ConfigFileType>,
    events: Seq<SetupEvent<E>>,
    i: int,
) -> SetupAction<E> {
    setup_step(format, setup_after(format, events.take(i)), events[i]).1
}

/// The work place after some events: each answer is carried out, from the first action on.
pub open spec fn place_after<U, O, E>(
    at: Workplace<U, O>,
    setup: StoreSetup<Seq<char>, U, O>,
    events: Seq<SetupEvent<E>>,
) -> Workplace<U, O>
    decreases events.len(),
{
    if events.len() == 0 {
        carried_out(at, setup, SetupAction::<E>::ExtendOptions)
    } else {
        let before = events.drop_last();
        carried_out(
            place_after(at, setup, before),
            setup,
            setup_step(setup.format, setup_after(setup.format, before), events.last()).1,
        )
    }
}

/// The default table options of a session that knows the scheme of the setup too.
pub open spec fn extended<U, O>(
    defaults: TableOptionsState<O>,
    setup: StoreSetup<Seq<char>, U, O>,
) -> TableOptionsState<O> {
    TableOptionsState { schemes: defaults.schemes.push(setup.scheme), ..defaults }
}

/// The table options for the format of the setup, where it has one.
pub open spec fn formatted<U, O>(
    options: TableOptionsState<O>,
    setup: StoreSetup<Seq<char>, U, O>,
) -> TableOptionsState<O> {
    match setup.format {
        Some(format) => TableOptionsState { format: Some(format), ..options },
        None => options,
    }
}

/// The table options with the options of the setup.
pub open spec fn configured<U, O>(
    options: TableOptionsState<O>,
    setup: StoreSetup<Seq<char>, U, O>,
) -> TableOptionsState<O> {
    TableOptionsState { options: Some(setup.options), ..options }
}

/// The store of a setup, in a session with the given default table options: that of its scheme and
/// its URL, under the defaults for the format with the options set on top.
pub open spec fn store_of<U, O>(
    defaults: TableOptionsState<O>,
    setup: StoreSetup<Seq<char>, U, O>,
) -> StoreState<U, O> {
    StoreState {
        scheme: setup.scheme,
        url: setup.url,
        table_options: configured(formatted(extended(defaults, setup), setup), setup),
        resolve_region: setup.resolve_region,
    }
}

/// The store of the setup has been registered, by the last action or before it.
pub open spec fn store_is_in<E>(format: Option<ConfigFileType>, events: Seq<SetupEvent<E>>) -> bool {
    exists|i: int| 0 <= i < events.len() && #[trigger] setup_answer(format, events, i) is RegisterStore
}

proof fn lemma_answers_stay<E>(format: Option<ConfigFileType>, events: Seq<SetupEvent<E>>, i: int)
    requires
        0 <= i < events.len() - 1,
    ensures
        setup_answer(format, events, i) == setup_answer(format, events.drop_last(), i),
{
    assert(events.drop_last().take(i) =~= events.take(i));
}

proof fn lemma_account<U, O, E>(
    at: Workplace<U, O>,
    setup: StoreSetup<Seq<char>, U, O>,
    events: Seq<SetupEvent<E>>,
)
    ensures
        ({
            let now = place_after(at, setup, events);
            let phase = setup_after(setup.format, events);
            let known = extended(at.session.defaults, setup);
            let registered = store_is_in(setup.format, events);
            &&& now.session.defaults == known
            &&& now.session.stores == if registered {
                at.session.stores.push(store_of(at.session.defaults, setup))
            } else {
                at.session.stores
            }
            &&& phase is Copying ==> now.copy == known
            &&& phase is Formatting ==> now.copy == formatted(known, setup)
            &&& phase is Configuring ==> now.copy == configured(formatted(known, setup), setup)
            &&& phase is Finding ==> now.store == store_of(at.session.defaults, setup)
            &&& phase is Registering ==> registered
            &&& registered ==> phase is Registering || phase is Done
        }),
    decreases events.len(),
{
    if events.len() > 0 {
        let format = setup.format;
        let before = events.drop_last();
        let last = events.len() - 1;
        lemma_account(at, setup, before);
        assert(events.take(last) =~= before);
        assert(setup_answer(format, events, last) == setup_step(
            format,
            setup_after(format, before),
            events.last(),
        ).1);
        if store_is_in(format, before) {
            let i = choose|i: int|
                0 <= i < before.len() && #[trigger] setup_answer(format, before, i) is RegisterStore;
            lemma_answers_stay(format, events, i);
            assert(setup_answer(format, events, i) is RegisterStore);
        }
        if store_is_in(format, events) {
            let i = choose|i: int|
                0 <= i < events.len() && #[trigger] setup_answer(format, events, i) is RegisterStore;
            if i < last {
                lemma_answers_stay(format, events, i);
                assert(setup_answer(format, before, i) is RegisterStore);
            }
        }
    }
}

/// The full account of a registration, whatever happens: the session learns the scheme, once; its
/// default table options are otherwise as they were; and its stores are as they were, but for the
/// store of the scheme, the URL and the region setting, found under a copy of the defaults with first
/// the format and then the options set. That store is registered at most once, and has been where the
/// registration succeeds.
pub proof fn law_account_of_a_registration<U, O, E>(
    at: Workplace<U, O>,
    setup: StoreSetup<Seq<char>, U, O>,
    events: Seq<SetupEvent<E>>,
)
    ensures
        ({
            let now = place_after(at, setup, events);
            let registered = store_is_in(setup.format, events);
            &&& now.session.defaults == extended(at.session.defaults, setup)
            &&& now.session.stores == if registered {
                at.session.stores.push(store_of(at.session.defaults, setup))
            } else {
                at.session.stores
            }
            &&& events.len() > 0 && setup_answer(setup.format, events, events.len() - 1)
                == SetupAction::<E>::Finish(Ok(())) ==> registered
        }),
{
    lemma_account(at, setup, events);
    if events.len() > 0 {
        let before = events.drop_last();
        let last = events.len() - 1;
        lemma_account(at, setup, before);
        assert(events.take(last) =~= before);
        if store_is_in(setup.format, before) {
            let i = choose|i: int|
                0 <= i < before.len() && #[trigger] setup_answer(setup.format, before, i)
                    is RegisterStore;
            lemma_answers_stay(setup.format, events, i);
            assert(setup_answer(setup.format, events, i) is RegisterStore);
        }
    }
}

/// Each registration works on its own copy of the default table options: neither the options nor the
/// format of an earlier registration show in a later one, however the earlier one went and whatever
/// it left behind, and the defaults hold neither afterwards.
pub proof fn law_registrations_do_not_show<U, O, E>(
    at: Workplace<U, O>,
    first: StoreSetup<Seq<char>, U, O>,
    first_events: Seq<SetupEvent<E>>,
    second: StoreSetup<Seq<char>, U, O>,
    second_events: Seq<SetupEvent<E>>,
)
    ensures
        ({
            let between = place_after(at, first, first_events);
            let after = place_after(between, second, second_events);
            let known = TableOptionsState {
                schemes: at.session.defaults.schemes.push(first.scheme),
                ..at.session.defaults
            };
            &&& after.session.defaults.format == at.session.defaults.format
            &&& after.session.defaults.options == at.session.defaults.options
            &&& store_is_in(second.format, second_events) ==> after.session.stores
                == between.session.stores.push(store_of(known, second))
        }),
{
    law_account_of_a_registration(at, first, first_events);
    law_account_of_a_registration(
        place_after(at, first, first_events),
        second,
        second_events,
    );
}

/// The event says that the options were set.
pub open spec fn options_set<E>(event: SetupEvent<E>) -> bool {
    event matches SetupEvent::Configured(outcome) && outcome is Ok
}

/// The event says that there is a store.
pub open spec fn store_found<E>(event: SetupEvent<E>) -> bool {
    event matches SetupEvent::Found(outcome) && outcome is Ok
}

proof fn lemma_extended<E>(format: Option<ConfigFileType>, events: Seq<SetupEvent<E>>)
    requires
        ({
            let phase = setup_after(format, events);
            phase is Copying || phase is Formatting || phase is Configuring
        }),
    ensures
        exists|i: int| 0 <= i < events.len() && #[trigger] events[i] is Extended,
    decreases events.len(),
{
    let before = events.drop_last();
    if setup_after(format, before) is Extending {
        assert(events[events.len() - 1] is Extended);
    } else {
        lemma_extended(format, before);
        let i = choose|i: int| 0 <= i < before.len() && #[trigger] before[i] is Extended;
        assert(events[i] is Extended);
    }
}

proof fn lemma_finding<E>(format: Option<ConfigFileType>, events: Seq<SetupEvent<E>>)
    requires
        setup_after(format, events) is Finding,
    ensures
        exists|i: int, j: int|
            0 <= i < j < events.len() && #[trigger] events[i] is Extended && #[trigger] options_set(
                events[j],
            ),
    decreases events.len(),
{
    let before = events.drop_last();
    if setup_after(format, before) is Finding {
        lemma_finding(format, before);
        let (i, j) = choose|i: int, j: int|
            0 <= i < j < before.len() && #[trigger] before[i] is Extended
                && #[trigger] options_set(before[j]);
        assert(events[i] is Extended && options_set(events[j]));
    } else {
        lemma_extended(format, before);
        let i = choose|i: int| 0 <= i < before.len() && #[trigger] before[i] is Extended;
        let j = events.len() - 1;
        assert(events[i] is Extended && options_set(events[j]));
    }
}

/// Whatever happens, a store is registered only once it was found, and it is looked for only after
/// the scheme was made known and the options were set.
pub proof fn law_store_is_registered_last<E>(
    format: Option<ConfigFileType>,
    events: Seq<SetupEvent<E>>,
    k: int,
)
    requires
        0 <= k < events.len(),
        setup_answer(format, events, k) is RegisterStore,
    ensures
        store_found(events[k]),
        exists|i: int, j: int|
            0 <= i < j < k && #[trigger] events[i] is Extended && #[trigger] options_set(events[j]),
{
    lemma_finding(format, events.take(k));
    let (i, j) = choose|i: int, j: int|
        0 <= i < j < k && #[trigger] events.take(k)[i] is Extended && #[trigger] options_set(
            events.take(k)[j],
        );
    assert(events[i] is Extended && options_set(events[j]));
}

proof fn lemma_formatting<E>(format: Option<ConfigFileType>, events: Seq<SetupEvent<E>>)
    requires
        setup_after(format, events) is Formatting,
    ensures
        format is Some,
        exists|i: int|
            0 <= i < events.len() && #[trigger] setup_answer(format, events, i) == SetupAction::<
                E,
            >::SetFormat(format->0),
    decreases events.len(),
{
    let before = events.drop_last();
    let last = events.len() - 1;
    assert(events.take(last) =~= before);
    if setup_after(format, before) is Formatting {
        lemma_formatting(format, before);
        let i = choose|i: int|
            0 <= i < before.len() && #[trigger] setup_answer(format, before, i) == SetupAction::<
                E,
            >::SetFormat(format->0);
        lemma_answers_stay(format, events, i);
        assert(setup_answer(format, events, i) == SetupAction::<E>::SetFormat(format->0));
    } else {
        assert(setup_answer(format, events, last) == SetupAction::<E>::SetFormat(format->0));
    }
}

/// Whatever happens, the options are set only after the format where there is one, so that options of
/// the format are known; where there is none, they are set in the copy as it is.
pub proof fn law_format_comes_before_options<E>(
    format: Option<ConfigFileType>,
    events: Seq<SetupEvent<E>>,
    k: int,
)
    requires
        0 <= k < events.len(),
        setup_answer(format, events, k) is SetOptions,
    ensures
        match format {
            Some(format) => {
                &&& events[k] is Formatted
                &&& exists|i: int|
                    0 <= i < k && #[trigger] setup_answer(Some(format), events, i) == SetupAction::<
                        E,
                    >::SetFormat(format)
            },
            None => events[k] is Copied,
        },
{
    if setup_after(format, events.take(k)) is Formatting {
        lemma_formatting(format, events.take(k));
        let i = choose|i: int|
            0 <= i < k && #[trigger] setup_answer(format, events.take(k), i) == SetupAction::<
                E,
            >::SetFormat(format->0);
        assert(events.take(k).take(i) =~= events.take(i));
        assert(setup_answer(format, events, i) == SetupAction::<E>::SetFormat(format->0));
    }
}

/// An error ends the registration with that error, and nothing is done afterwards.
pub proof fn law_errors_end_the_registration<E>(
    format: Option<ConfigFileType>,
    phase: SetupPhase,
    event: SetupEvent<E>,
)
    ensures
        setup_step(format, phase, event).1 is Finish ==> setup_step(format, phase, event).0 is Done,
        phase is Done ==> setup_step(format, phase, event) == (
            phase,
            SetupAction::<E>::Unexpected,
        ),
        setup_step(format, phase, event).1 matches SetupAction::Finish(Err(error)) ==> event
            == SetupEvent::Configured(Err::<(), E>(error)) || event == SetupEvent::Found(
            Err::<(), E>(error),
        ),
{
}

/// The event tells what became of the action.
pub open spec fn tells_of<E>(action: SetupAction<E>, event: SetupEvent<E>) -> bool {
    match action {
        SetupAction::ExtendOptions => event is Extended,
        SetupAction::CopyDefaults => event is Copied,
        SetupAction::SetFormat(_) => event is Formatted,
        SetupAction::SetOptions => event is Configured,
        SetupAction::FindStore => event is Found,
        SetupAction::RegisterStore => event is Registered,
        SetupAction::Finish(_) => false,
        SetupAction::Unexpected => false,
    }
}

/// A registration asks for one thing at a time, first for the scheme to be made known, and takes in what
/// became of it, and nothing else: any other event is not awaited and changes nothing, and after the
/// end none is.
pub proof fn law_one_thing_at_a_time<E>(
    format: Option<ConfigFileType>,
    phase: SetupPhase,
    event: SetupEvent<E>,
    next_event: SetupEvent<E>,
)
    ensures
        setup_step(format, SetupPhase::Extending, event).1 is Unexpected <==> !tells_of(
            SetupAction::ExtendOptions,
            event,
        ),
        ({
            let (next, action) = setup_step(format, phase, event);
            if action is Unexpected {
                next == phase
            } else {
                setup_step(format, next, next_event).1 is Unexpected <==> !tells_of(
                    action,
                    next_event,
                )
            }
        }),
{
}

/// Every awaited error is the outcome of the registration.
pub proof fn law_errors_are_outcomes<E>(
    format: Option<ConfigFileType>,
    phase: SetupPhase,
    event: SetupEvent<E>,
)
    ensures
        ({
            let action = setup_step(format, phase, event).1;
            &&& event matches SetupEvent::Configured(Err(error)) ==> action is Unexpected || action
                == SetupAction::<E>::Finish(Err(error))
            &&& event matches SetupEvent::Found(Err(error)) ==> action is Unexpected || action
                == SetupAction::<E>::Finish(Err(error))
        }),
{
}

/// A registration in which all goes well does each thing once, in this order: it has the scheme made
/// known, the defaults copied, the format set where there is one, the options set, the store found, and
/// the store registered, and then succeeds.
pub proof fn law_a_registration_that_goes_well<E>(format: Option<ConfigFileType>)
    ensures
        ({
            let (p1, a1) = setup_step(format, SetupPhase::Extending, SetupEvent::<E>::Extended);
            let (p2, a2) = setup_step(format, p1, SetupEvent::<E>::Copied);
            let (p3, a3) = if format is Some {
                setup_step(format, p2, SetupEvent::<E>::Formatted)
            } else {
                (p2, a2)
            };
            let (p4, a4) = setup_step(format, p3, SetupEvent::<E>::Configured(Ok(())));
            let (p5, a5) = setup_step(format, p4, SetupEvent::<E>::Found(Ok(())));
            let (p6, a6) = setup_step(format, p5, SetupEvent::<E>::Registered);
            &&& a1 == SetupAction::<E>::CopyDefaults
            &&& format matches Some(set) ==> a2 == SetupAction::<E>::SetFormat(set)
            &&& a3 == SetupAction::<E>::SetOptions
            &&& a4 == SetupAction::<E>::FindStore
            &&& a5 == SetupAction::<E>::RegisterStore
            &&& a6 == SetupAction::<E>::Finish(Ok(()))
        }),
{
}

/// A registration is about the place that it was asked for, in everything but the scheme and the URL,
/// which are those of its location.
pub proof fn law_a_setup_is_about_its_place<U, O>(
    place: Registration<Seq<char>, O>,
    scheme: Seq<char>,
    url: U,
)
    ensures
        ({
            let setup = setup_start(place, scheme, url);
            &&& setup.scheme == scheme
            &&& setup.url == url
            &&& setup.options == place.options
            &&& setup.format == place.format
            &&& setup.resolve_region == place.resolve_region
            &&& setup.phase is Extending
        }),
{
}

/// A setup is seen whole.
pub proof fn law_setups_are_seen_whole<U, O>(setup: StoreSetup<String, U, O>)
    ensures
        setup@.scheme == setup.scheme@,
        setup@.url == setup.url,
        setup@.options == setup.options,
        setup@.format == setup.format,
        setup@.resolve_region == setup.resolve_region,
        setup@.phase == setup.phase,
{
}

} // verus!
