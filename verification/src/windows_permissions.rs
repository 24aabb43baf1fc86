//! The decisions around camera permissions on Windows: what a probe of the
//! media stack says, the order in which access is sought, and what is
//! reported to the user. The operating-system calls themselves are made by
//! the application, which hands their outcomes to these functions.
use vstd::prelude::*;

verus! {

/// Result of a permission check.
#[derive(Debug, Clone)]
pub enum PermissionStatus {
    Granted,
    Denied,
    Unknown,
    Error(String),
}

/// Checks and requests camera permissions.
pub struct WindowsPermissionManager;

impl WindowsPermissionManager {
    /// A new permission manager; it keeps no state.
    pub fn new() -> (manager: Self) {
        WindowsPermissionManager
    }
}

impl Default for WindowsPermissionManager {
    fn default() -> (manager: Self) {
        Self::new()
    }
}

/// What probing the media stack found, call by call. A call that was not
/// made because an earlier one failed is passed as `true`; it is ignored.
pub struct ComProbe {
    /// The text of the error that initialising COM returned, if it failed.
    pub init_error: Option<String>,
    /// Whether creating a Media Foundation attribute store succeeded.
    pub attributes_created: bool,
    /// Whether marking the store as a video-capture source succeeded.
    pub source_type_set: bool,
}

/// The permission status a probe shows: an error if COM could not be
/// initialised, denied if the attribute store could not be made or marked as
/// a video-capture source, granted otherwise.
pub fn probe_status(probe: ComProbe) -> (status: PermissionStatus)
    ensures
        match probe.init_error {
            Some(e) => status matches PermissionStatus::Error(m) && m@ == "Failed to initialize COM: "@ + e@,
            None => if !probe.attributes_created || !probe.source_type_set {
                status is Denied
            } else {
                status is Granted
            },
        },
{
    match probe.init_error {
        Some(e) => {
            let mut message = String::from_str("Failed to initialize COM: ");
            message.append(e.as_str());
            PermissionStatus::Error(message)
        },
        None => {
            if !probe.attributes_created || !probe.source_type_set {
                PermissionStatus::Denied
            } else {
                PermissionStatus::Granted
            }
        },
    }
}

/// Whether opening the privacy settings succeeded: the shell reports
/// success with a value greater than 32 and failure with one of at most 32.
pub fn shell_execute_succeeded(code: isize) -> (opened: bool)
    ensures
        opened == (code > 32),
{
    code > 32
}

/// Whether the process runs elevated: the token could be opened and queried,
/// and its elevation flag is set.
pub fn elevation_from_token(token_opened: bool, query_succeeded: bool, token_is_elevated: u32) -> (elevated: bool)
    ensures
        elevated == (token_opened && query_succeeded && token_is_elevated != 0),
{
    token_opened && query_succeeded && token_is_elevated != 0
}

/// Where the search for camera access stands.
#[derive(Debug, Clone, Copy, PartialEq, Eq, Structural)]
pub enum AccessStage {
    /// Nothing done yet.
    Start,
    /// The first permission check is under way.
    FirstCheck,
    /// The user was sent to the privacy settings and the permission checked again.
    Requesting,
    /// The last permission check is under way.
    FinalCheck,
    /// The search is over.
    Done,
}

/// What the application reports back after doing what was asked.
pub enum AccessEvent {
    /// Nothing happened yet (the search starts).
    Begin,
    /// A permission check gave this status.
    Checked(PermissionStatus),
    /// Opening the privacy settings and checking again gave this, or failed
    /// with this text.
    Requested(Result<PermissionStatus, String>),
}

/// What the application must do next.
pub enum AccessAction {
    /// Check the camera permission and report `Checked`.
    CheckPermission,
    /// Open the privacy settings, check again, and report `Requested`.
    RequestPermission,
    /// The search is over with this status.
    Finish(PermissionStatus),
}

/// The next stage and action of the search for camera access, from `stage`
/// on `event`. A stage that waits for a check or a request and is handed
/// anything else asks again; a finished search answers unknown.
pub open spec fn access_transition(stage: AccessStage, event: AccessEvent) -> (AccessStage, AccessAction) {
    match stage {
        AccessStage::Start => (AccessStage::FirstCheck, AccessAction::CheckPermission),
        AccessStage::FirstCheck => match event {
            AccessEvent::Checked(PermissionStatus::Granted) => (
                AccessStage::Done,
                AccessAction::Finish(PermissionStatus::Granted),
            ),
            AccessEvent::Checked(PermissionStatus::Denied) => (AccessStage::Requesting, AccessAction::RequestPermission),
            _ => (AccessStage::FinalCheck, AccessAction::CheckPermission),
        },
        AccessStage::Requesting => match event {
            AccessEvent::Requested(Ok(PermissionStatus::Granted)) => (
                AccessStage::Done,
                AccessAction::Finish(PermissionStatus::Granted),
            ),
            _ => (AccessStage::FinalCheck, AccessAction::CheckPermission),
        },
        AccessStage::FinalCheck => match event {
            AccessEvent::Checked(status) => (AccessStage::Done, AccessAction::Finish(status)),
            _ => (AccessStage::FinalCheck, AccessAction::CheckPermission),
        },
        AccessStage::Done => (AccessStage::Done, AccessAction::Finish(PermissionStatus::Unknown)),
    }
}

/// How far the search has come.
pub open spec fn access_progress(stage: AccessStage) -> int {
    match stage {
        AccessStage::Start => 0,
        AccessStage::FirstCheck => 1,
        AccessStage::Requesting => 2,
        AccessStage::FinalCheck => 3,
        AccessStage::Done => 4,
    }
}

/// The event that answers the action asked for at `stage`.
pub open spec fn answers(stage: AccessStage, event: AccessEvent) -> bool {
    match stage {
        AccessStage::Start => event is Begin,
        AccessStage::FirstCheck => event is Checked,
        AccessStage::Requesting => event is Requested,
        AccessStage::FinalCheck => event is Checked,
        AccessStage::Done => true,
    }
}

/// Each answered step moves the search forward, so it finishes after at
/// most four steps, having checked at most twice and requested at most once;
/// and a search only finishes granted
/// when a check or the request granted access.
pub proof fn lemma_access_flow_progress(stage: AccessStage, event: AccessEvent)
    requires
        stage != AccessStage::Done,
        answers(stage, event),
    ensures
        access_progress(access_transition(stage, event).0) > access_progress(stage),
        access_transition(stage, event).1 matches AccessAction::Finish(PermissionStatus::Granted) ==> (
        event matches AccessEvent::Checked(PermissionStatus::Granted) || event matches AccessEvent::Requested(
            Ok(PermissionStatus::Granted),
        )),
{
}

/// The whole search, as the fallback strategy goes: after the first check, a
/// granted status ends the search granted; a denied one leads to a request,
/// which ends the search granted if it granted access and otherwise is
/// followed by a last check; any other first status is followed by the last
/// check at once. Whenever the last check is made, the search ends with the
/// status that check gave, whatever it is.
pub proof fn lemma_access_search_outcome(
    first: PermissionStatus,
    request: Result<PermissionStatus, String>,
    last: PermissionStatus,
)
    ensures
        access_transition(AccessStage::Start, AccessEvent::Begin).1 is CheckPermission,
        first is Granted ==> access_transition(
            access_transition(AccessStage::Start, AccessEvent::Begin).0,
            AccessEvent::Checked(first),
        ).1 matches AccessAction::Finish(PermissionStatus::Granted),
        first is Denied ==> access_transition(
            access_transition(AccessStage::Start, AccessEvent::Begin).0,
            AccessEvent::Checked(first),
        ).1 is RequestPermission,
        first is Denied && (request matches Ok(PermissionStatus::Granted)) ==> access_transition(
            access_transition(
                access_transition(AccessStage::Start, AccessEvent::Begin).0,
                AccessEvent::Checked(first),
            ).0,
            AccessEvent::Requested(request),
        ).1 matches AccessAction::Finish(PermissionStatus::Granted),
        first is Denied && !(request matches Ok(PermissionStatus::Granted)) ==> access_transition(
            access_transition(
                access_transition(AccessStage::Start, AccessEvent::Begin).0,
                AccessEvent::Checked(first),
            ).0,
            AccessEvent::Requested(request),
        ).1 is CheckPermission && access_transition(
            access_transition(
                access_transition(
                    access_transition(AccessStage::Start, AccessEvent::Begin).0,
                    AccessEvent::Checked(first),
                ).0,
                AccessEvent::Requested(request),
            ).0,
            AccessEvent::Checked(last),
        ).1 == AccessAction::Finish(last),
        !(first is Granted) && !(first is Denied) ==> access_transition(
            access_transition(AccessStage::Start, AccessEvent::Begin).0,
            AccessEvent::Checked(first),
        ).1 is CheckPermission && access_transition(
            access_transition(
                access_transition(AccessStage::Start, AccessEvent::Begin).0,
                AccessEvent::Checked(first),
            ).0,
            AccessEvent::Checked(last),
        ).1 == AccessAction::Finish(last),
{
}

/// A search that finishes reports a status that a check gave, or the granted
/// status of a request: it never makes one up. In particular it reports
/// unknown only when a check said unknown.
pub proof fn lemma_access_finish_is_reported_status(stage: AccessStage, event: AccessEvent)
    requires
        stage != AccessStage::Done,
    ensures
        access_transition(stage, event).1 matches AccessAction::Finish(status) ==> ((event matches AccessEvent::Checked(
            checked,
        ) && checked == status) || ((event matches AccessEvent::Requested(Ok(PermissionStatus::Granted)))
            && status is Granted)),
        stage == AccessStage::Requesting && !(event matches AccessEvent::Requested(Ok(PermissionStatus::Granted)))
            ==> access_transition(stage, event).1 is CheckPermission,
{
}

/// The steps of seeking camera access: check; a granted check ends the
/// search; a denied one sends the user to the settings, and if that grants
/// access the search ends granted; in every other case a last check decides.
pub struct AccessFlow {
    stage: AccessStage,
}

impl AccessFlow {
    /// The current stage.
    pub closed spec fn stage(&self) -> AccessStage {
        self.stage
    }

    /// A search that has not started.
    pub fn new() -> (flow: Self)
        ensures
            flow.stage() == AccessStage::Start,
    {
        AccessFlow { stage: AccessStage::Start }
    }

    /// Takes the outcome of the last action and says what to do next.
    pub fn next(&mut self, event: AccessEvent) -> (action: AccessAction)
        ensures
            (final(self).stage(), action) == access_transition(old(self).stage(), event),
            old(self).stage() != AccessStage::Done ==> (action matches AccessAction::Finish(status) ==> (
            (event matches AccessEvent::Checked(checked) && checked == status) || ((event matches AccessEvent::Requested(
                Ok(PermissionStatus::Granted),
            )) && status is Granted))),
            old(self).stage() == AccessStage::Requesting && !(event matches AccessEvent::Requested(
                Ok(PermissionStatus::Granted),
            )) ==> action is CheckPermission,
    {
        match self.stage {
            AccessStage::Start => {
                self.stage = AccessStage::FirstCheck;
                AccessAction::CheckPermission
            },
            AccessStage::FirstCheck => match event {
                AccessEvent::Checked(PermissionStatus::Granted) => {
                    self.stage = AccessStage::Done;
                    AccessAction::Finish(PermissionStatus::Granted)
                },
                AccessEvent::Checked(PermissionStatus::Denied) => {
                    self.stage = AccessStage::Requesting;
                    AccessAction::RequestPermission
                },
                _ => {
                    self.stage = AccessStage::FinalCheck;
                    AccessAction::CheckPermission
                },
            },
            AccessStage::Requesting => match event {
                AccessEvent::Requested(Ok(PermissionStatus::Granted)) => {
                    self.stage = AccessStage::Done;
                    AccessAction::Finish(PermissionStatus::Granted)
                },
                _ => {
                    self.stage = AccessStage::FinalCheck;
                    AccessAction::CheckPermission
                },
            },
            AccessStage::FinalCheck => match event {
                AccessEvent::Checked(status) => {
                    self.stage = AccessStage::Done;
                    AccessAction::Finish(status)
                },
                _ => AccessAction::CheckPermission,
            },
            AccessStage::Done => AccessAction::Finish(PermissionStatus::Unknown),
        }
    }
}

/// What is told to the user about a permission status, and whether the
/// guidance on granting access follows.
pub struct PermissionReport {
    pub message: String,
    pub show_guidance: bool,
}

/// The report for a permission status: guidance follows every status but
/// granted.
pub fn permission_report(status: &PermissionStatus) -> (report: PermissionReport)
    ensures
        report.show_guidance == !(status is Granted),
        match status {
            PermissionStatus::Granted => report.message@ == "✅ Camera permissions are granted"@,
            PermissionStatus::Denied => report.message@ == "❌ Camera permissions are denied"@,
            PermissionStatus::Unknown => report.message@ == "❓ Camera permission status is unknown"@,
            PermissionStatus::Error(e) => report.message@ == "❌ Error checking camera permissions: "@
                + e@,
        },
{
    match status {
        PermissionStatus::Granted => PermissionReport {
            message: String::from_str("✅ Camera permissions are granted"),
            show_guidance: false,
        },
        PermissionStatus::Denied => PermissionReport {
            message: String::from_str("❌ Camera permissions are denied"),
            show_guidance: true,
        },
        PermissionStatus::Unknown => PermissionReport {
            message: String::from_str("❓ Camera permission status is unknown"),
            show_guidance: true,
        },
        PermissionStatus::Error(e) => {
            let mut message = String::from_str("❌ Error checking camera permissions: ");
            message.append(e.as_str());
            PermissionReport { message, show_guidance: true }
        },
    }
}

/// The line printed about the process's privileges.
pub fn elevation_message(elevated: bool) -> (message: String)
    ensures
        elevated ==> message@ == "✅ Running with elevated privileges"@,
        !elevated ==> message@ == "ℹ️  Running with standard privileges"@,
{
    if elevated {
        String::from_str("✅ Running with elevated privileges")
    } else {
        String::from_str("ℹ️  Running with standard privileges")
    }
}

} // verus!
