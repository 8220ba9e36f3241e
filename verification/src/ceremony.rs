//! The key ceremony: its kinds, its ordered steps, the removable devices it
//! needs, and what each step requires and records.
//!
//! The ceremony is driven step by step.  Each step reads the ceremony state
//! (what earlier steps produced) and, when it has done its work, records what
//! it produced.  The work itself (generating keys, writing files, asking the
//! operator) happens outside this module; here stand the decisions: which
//! steps run for which kind of ceremony, what each step needs, and what it
//! leaves behind.
use vstd::prelude::*;
use crate::text::{join_with, join_strings, strings_view};

verus! {

/// Which kind of key ceremony is being run.
#[derive(Clone, Copy, PartialEq, Eq, Structural, Debug)]
pub enum CeremonyType {
    InitialSetup,
    OrgKeyRotation,
}

/// Whether confirmations are asked of the operator or assumed.
#[derive(Clone, Copy, PartialEq, Eq, Structural, Debug)]
pub enum AssumeYes {
    AlwaysAsk,
    DefaultYes,
}

impl AssumeYes {
    pub fn from_boolean(assume_yes: bool) -> (r: Self)
        ensures
            r == (if assume_yes { AssumeYes::DefaultYes } else { AssumeYes::AlwaysAsk }),
    {
        if assume_yes {
            AssumeYes::DefaultYes
        } else {
            AssumeYes::AlwaysAsk
        }
    }
}

/// Which of the two copies of the organization key pair is being handled.
#[derive(Clone, Copy, PartialEq, Eq, Structural, Debug)]
pub enum OrgKeyPairCopy {
    Primary,
    Secondary,
}

pub open spec fn copy_number_spec(c: OrgKeyPairCopy) -> Seq<char> {
    match c {
        OrgKeyPairCopy::Primary => "1"@,
        OrgKeyPairCopy::Secondary => "2"@,
    }
}

impl OrgKeyPairCopy {
    /// The copy's number as shown to the operator.
    pub fn number(&self) -> (r: &'static str)
        ensures
            r@ == copy_number_spec(*self),
    {
        match self {
            OrgKeyPairCopy::Primary => "1",
            OrgKeyPairCopy::Secondary => "2",
        }
    }
}

/// A removable device that receives material during the ceremony.
#[derive(Clone, Copy, PartialEq, Eq, Structural, Debug)]
pub enum UsbDevice {
    OrgKeyPair(OrgKeyPairCopy),
    OrgKeyPairPassword(OrgKeyPairCopy),
    PublicKeysAndForms,
    EditorialStaff,
    IdentityAPI,
    CoverNodeDatabase,
    AdminKeyPair,
    BackupKeys,
}

pub open spec fn usb_description_spec(d: UsbDevice) -> Seq<char> {
    match d {
        UsbDevice::OrgKeyPair(OrgKeyPairCopy::Primary) => "Org key pair copy 1"@,
        UsbDevice::OrgKeyPairPassword(OrgKeyPairCopy::Primary) => "Org key pair password 1"@,
        UsbDevice::OrgKeyPair(OrgKeyPairCopy::Secondary) => "Org key pair copy 2"@,
        UsbDevice::OrgKeyPairPassword(OrgKeyPairCopy::Secondary) => "Org key pair password 2"@,
        UsbDevice::PublicKeysAndForms => "Public keys and forms"@,
        UsbDevice::EditorialStaff => "Editorial staff"@,
        UsbDevice::IdentityAPI => "Identity API"@,
        UsbDevice::CoverNodeDatabase => "CoverNode database"@,
        UsbDevice::AdminKeyPair => "Admin keys"@,
        UsbDevice::BackupKeys => "Backup keys"@,
    }
}

/// Every device, in the order they are listed to the operator.
pub open spec fn all_devices_spec() -> Seq<UsbDevice> {
    seq![
        UsbDevice::OrgKeyPair(OrgKeyPairCopy::Primary),
        UsbDevice::OrgKeyPairPassword(OrgKeyPairCopy::Primary),
        UsbDevice::OrgKeyPair(OrgKeyPairCopy::Secondary),
        UsbDevice::OrgKeyPairPassword(OrgKeyPairCopy::Secondary),
        UsbDevice::PublicKeysAndForms,
        UsbDevice::EditorialStaff,
        UsbDevice::IdentityAPI,
        UsbDevice::CoverNodeDatabase,
        UsbDevice::AdminKeyPair,
        UsbDevice::BackupKeys,
    ]
}

/// Only the CoverNode database device is specific to the initial setup.
pub open spec fn required_for_spec(d: UsbDevice, t: CeremonyType) -> bool {
    match d {
        UsbDevice::CoverNodeDatabase => t == CeremonyType::InitialSetup,
        _ => true,
    }
}

impl UsbDevice {
    /// The label the device must carry.
    pub fn description(&self) -> (r: &'static str)
        ensures
            r@ == usb_description_spec(*self),
    {
        match self {
            UsbDevice::OrgKeyPair(OrgKeyPairCopy::Primary) => "Org key pair copy 1",
            UsbDevice::OrgKeyPairPassword(OrgKeyPairCopy::Primary) => "Org key pair password 1",
            UsbDevice::OrgKeyPair(OrgKeyPairCopy::Secondary) => "Org key pair copy 2",
            UsbDevice::OrgKeyPairPassword(OrgKeyPairCopy::Secondary) => "Org key pair password 2",
            UsbDevice::PublicKeysAndForms => "Public keys and forms",
            UsbDevice::EditorialStaff => "Editorial staff",
            UsbDevice::IdentityAPI => "Identity API",
            UsbDevice::CoverNodeDatabase => "CoverNode database",
            UsbDevice::AdminKeyPair => "Admin keys",
            UsbDevice::BackupKeys => "Backup keys",
        }
    }

    /// Every device, in the order they are listed to the operator.
    pub fn all_devices() -> (r: Vec<UsbDevice>)
        ensures
            r@ == all_devices_spec(),
    {
        let r = vec![
            UsbDevice::OrgKeyPair(OrgKeyPairCopy::Primary),
            UsbDevice::OrgKeyPairPassword(OrgKeyPairCopy::Primary),
            UsbDevice::OrgKeyPair(OrgKeyPairCopy::Secondary),
            UsbDevice::OrgKeyPairPassword(OrgKeyPairCopy::Secondary),
            UsbDevice::PublicKeysAndForms,
            UsbDevice::EditorialStaff,
            UsbDevice::IdentityAPI,
            UsbDevice::CoverNodeDatabase,
            UsbDevice::AdminKeyPair,
            UsbDevice::BackupKeys,
        ];
        assert(r@ =~= all_devices_spec());
        r
    }

    /// Whether the device is needed for this kind of ceremony.
    pub fn required_for_ceremony_type(&self, ceremony_type: &CeremonyType) -> (r: bool)
        ensures
            r == required_for_spec(*self, *ceremony_type),
    {
        match self {
            UsbDevice::CoverNodeDatabase => *ceremony_type == CeremonyType::InitialSetup,
            _ => true,
        }
    }
}


/// The steps of the ceremony, run in declaration order.
#[derive(Clone, Copy, PartialEq, Eq, Structural, Debug)]
pub enum CeremonyStep {
    /// The initial step prompting the user to start the ceremony
    InitialStep,
    GenerateOrganizationKeyPair,
    GenerateJournalistProvisioningKeyPair,
    GenerateCoverNodeProvisioningKeyPair,
    GenerateCoverNodeDatabase,
    GenerateAdminKeyPair,
    GenerateBackupKeys,
    GenerateSystemStatusBundle,
    GenerateAnchorOrganizationPublicKeyFile,
    GeneratePublicKeyFormsBundle,
    /// Final step prompting the user to delete files
    FinalStep,
}

/// Every step, in the order the ceremony runs them.
pub open spec fn all_steps_spec() -> Seq<CeremonyStep> {
    seq![
        CeremonyStep::InitialStep,
        CeremonyStep::GenerateOrganizationKeyPair,
        CeremonyStep::GenerateJournalistProvisioningKeyPair,
        CeremonyStep::GenerateCoverNodeProvisioningKeyPair,
        CeremonyStep::GenerateCoverNodeDatabase,
        CeremonyStep::GenerateAdminKeyPair,
        CeremonyStep::GenerateBackupKeys,
        CeremonyStep::GenerateSystemStatusBundle,
        CeremonyStep::GenerateAnchorOrganizationPublicKeyFile,
        CeremonyStep::GeneratePublicKeyFormsBundle,
        CeremonyStep::FinalStep,
    ]
}

pub open spec fn step_title_spec(step: CeremonyStep) -> Seq<char> {
    match step {
        CeremonyStep::InitialStep => "Initial Step"@,
        CeremonyStep::GenerateOrganizationKeyPair => "Generate Organization Key Pair"@,
        CeremonyStep::GenerateJournalistProvisioningKeyPair => "Generate Journalist Provisioning Key Pair"@,
        CeremonyStep::GenerateCoverNodeProvisioningKeyPair => "Generate CoverNode Provisioning Key Pair"@,
        CeremonyStep::GenerateCoverNodeDatabase => "Generate CoverNode Database"@,
        CeremonyStep::GenerateAdminKeyPair => "Generate Admin Key Pair"@,
        CeremonyStep::GenerateBackupKeys => "Generate Backup Keys"@,
        CeremonyStep::GenerateSystemStatusBundle => "Generate System Status Bundle"@,
        CeremonyStep::GenerateAnchorOrganizationPublicKeyFile => "Generate Anchor Organization Public Key File"@,
        CeremonyStep::GeneratePublicKeyFormsBundle => "Generate Public Key Forms Bundle"@,
        CeremonyStep::FinalStep => "Final Step"@,
    }
}

/// The steps that an organization key rotation leaves out: no CoverNode
/// database is made and the system status is not set.
pub open spec fn skipped_spec(step: CeremonyStep, t: CeremonyType) -> bool {
    t == CeremonyType::OrgKeyRotation && (step == CeremonyStep::GenerateCoverNodeDatabase || step
        == CeremonyStep::GenerateSystemStatusBundle)
}

/// What each kind of ceremony runs: an initial setup runs every step; an
/// organization key rotation runs every step but the CoverNode database and
/// the system status bundle.  In particular the first step (checking the
/// environment and the devices) and the last (deleting the material) always
/// run, and every step that makes a key pair or the public key forms runs.
pub proof fn lemma_steps_each_ceremony_runs(step: CeremonyStep, t: CeremonyType)
    ensures
        t == CeremonyType::InitialSetup ==> !skipped_spec(step, t),
        step == CeremonyStep::InitialStep ==> !skipped_spec(step, t),
        step == CeremonyStep::FinalStep ==> !skipped_spec(step, t),
        step == CeremonyStep::GenerateOrganizationKeyPair ==> !skipped_spec(step, t),
        step == CeremonyStep::GenerateJournalistProvisioningKeyPair ==> !skipped_spec(step, t),
        step == CeremonyStep::GenerateCoverNodeProvisioningKeyPair ==> !skipped_spec(step, t),
        step == CeremonyStep::GenerateAdminKeyPair ==> !skipped_spec(step, t),
        step == CeremonyStep::GenerateBackupKeys ==> !skipped_spec(step, t),
        step == CeremonyStep::GenerateAnchorOrganizationPublicKeyFile ==> !skipped_spec(step, t),
        step == CeremonyStep::GeneratePublicKeyFormsBundle ==> !skipped_spec(step, t),
        t == CeremonyType::OrgKeyRotation && step == CeremonyStep::GenerateCoverNodeDatabase ==> skipped_spec(
            step,
            t,
        ),
        t == CeremonyType::OrgKeyRotation && step == CeremonyStep::GenerateSystemStatusBundle ==> skipped_spec(
            step,
            t,
        ),
{
}

impl CeremonyStep {
    /// Every step, in the order the ceremony runs them.
    pub fn all_steps() -> (r: Vec<CeremonyStep>)
        ensures
            r@ == all_steps_spec(),
    {
        let r = vec![
            CeremonyStep::InitialStep,
            CeremonyStep::GenerateOrganizationKeyPair,
            CeremonyStep::GenerateJournalistProvisioningKeyPair,
            CeremonyStep::GenerateCoverNodeProvisioningKeyPair,
            CeremonyStep::GenerateCoverNodeDatabase,
            CeremonyStep::GenerateAdminKeyPair,
            CeremonyStep::GenerateBackupKeys,
            CeremonyStep::GenerateSystemStatusBundle,
            CeremonyStep::GenerateAnchorOrganizationPublicKeyFile,
            CeremonyStep::GeneratePublicKeyFormsBundle,
            CeremonyStep::FinalStep,
        ];
        assert(r@ =~= all_steps_spec());
        r
    }

    /// The step's title, shown before it runs when the operator is asked.
    pub fn title(&self) -> (r: &'static str)
        ensures
            r@ == step_title_spec(*self),
    {
        match self {
            CeremonyStep::InitialStep => "Initial Step",
            CeremonyStep::GenerateOrganizationKeyPair => "Generate Organization Key Pair",
            CeremonyStep::GenerateJournalistProvisioningKeyPair => "Generate Journalist Provisioning Key Pair",
            CeremonyStep::GenerateCoverNodeProvisioningKeyPair => "Generate CoverNode Provisioning Key Pair",
            CeremonyStep::GenerateCoverNodeDatabase => "Generate CoverNode Database",
            CeremonyStep::GenerateAdminKeyPair => "Generate Admin Key Pair",
            CeremonyStep::GenerateBackupKeys => "Generate Backup Keys",
            CeremonyStep::GenerateSystemStatusBundle => "Generate System Status Bundle",
            CeremonyStep::GenerateAnchorOrganizationPublicKeyFile => "Generate Anchor Organization Public Key File",
            CeremonyStep::GeneratePublicKeyFormsBundle => "Generate Public Key Forms Bundle",
            CeremonyStep::FinalStep => "Final Step",
        }
    }

    /// Whether this kind of ceremony leaves the step out.
    pub fn is_skipped(&self, ceremony_type: CeremonyType) -> (r: bool)
        ensures
            r == skipped_spec(*self, ceremony_type),
    {
        ceremony_type == CeremonyType::OrgKeyRotation && (*self == CeremonyStep::GenerateCoverNodeDatabase
            || *self == CeremonyStep::GenerateSystemStatusBundle)
    }
}

/// What a step produced, as it is recorded in the ceremony state.
#[derive(Clone, Debug)]
pub enum StepOutput {
    /// The step leaves nothing in the state.
    Nothing,
    /// The organization key pair is now held (generated, or provided beforehand).
    OrgKeyPair,
    /// The path of the one file the step wrote.
    File(String),
    /// The paths of the backup identity and messaging key pair files.
    BackupKeyPairFiles(String, String),
}

/// The mathematical content of a step output.
pub enum StepOutputView {
    Nothing,
    OrgKeyPair,
    File(Seq<char>),
    BackupKeyPairFiles(Seq<char>, Seq<char>),
}

impl View for StepOutput {
    type V = StepOutputView;

    open spec fn view(&self) -> StepOutputView {
        match self {
            StepOutput::Nothing => StepOutputView::Nothing,
            StepOutput::OrgKeyPair => StepOutputView::OrgKeyPair,
            StepOutput::File(f) => StepOutputView::File(f@),
            StepOutput::BackupKeyPairFiles(a, b) => StepOutputView::BackupKeyPairFiles(a@, b@),
        }
    }
}

/// The output a step must hand back: what it writes, or nothing for the
/// steps that record nothing and for the steps this kind of ceremony skips.
pub open spec fn output_fits(step: CeremonyStep, t: CeremonyType, out: StepOutputView) -> bool {
    if skipped_spec(step, t) {
        out is Nothing
    } else {
        match step {
            CeremonyStep::GenerateOrganizationKeyPair => out is OrgKeyPair,
            CeremonyStep::GenerateJournalistProvisioningKeyPair => out is File,
            CeremonyStep::GenerateCoverNodeProvisioningKeyPair => out is File,
            CeremonyStep::GenerateAdminKeyPair => out is File,
            CeremonyStep::GenerateBackupKeys => out is BackupKeyPairFiles,
            CeremonyStep::GenerateSystemStatusBundle => out is File,
            CeremonyStep::GenerateAnchorOrganizationPublicKeyFile => out is File,
            CeremonyStep::GeneratePublicKeyFormsBundle => out is File,
            _ => out is Nothing,
        }
    }
}

/// The ceremony's settings and what its steps have produced so far.
#[derive(Clone, Debug)]
pub struct CeremonyState {
    pub ceremony_type: CeremonyType,
    pub assume_yes: AssumeYes,
    pub output_directory: String,
    pub covernode_count: Option<u8>,
    pub covernode_db_password: Option<String>,
    /// Whether the organization key pair is held.
    pub org_key_pair: bool,
    pub journalist_provisioning_key_pair_file: Option<String>,
    pub covernode_provisioning_key_pair_file: Option<String>,
    pub admin_key_pair_file: Option<String>,
    pub backup_id_key_pair_file: Option<String>,
    pub backup_msg_key_pair_file: Option<String>,
    pub anchor_org_pk_file: Option<String>,
    pub set_system_status_available_bundle: Option<String>,
    pub public_key_forms_bundle: Option<String>,
}

/// The mathematical content of the ceremony state.
pub struct CeremonyStateView {
    pub ceremony_type: CeremonyType,
    pub assume_yes: AssumeYes,
    pub output_directory: Seq<char>,
    pub covernode_count: Option<u8>,
    pub covernode_db_password: Option<Seq<char>>,
    pub org_key_pair: bool,
    pub journalist_provisioning_key_pair_file: Option<Seq<char>>,
    pub covernode_provisioning_key_pair_file: Option<Seq<char>>,
    pub admin_key_pair_file: Option<Seq<char>>,
    pub backup_id_key_pair_file: Option<Seq<char>>,
    pub backup_msg_key_pair_file: Option<Seq<char>>,
    pub anchor_org_pk_file: Option<Seq<char>>,
    pub set_system_status_available_bundle: Option<Seq<char>>,
    pub public_key_forms_bundle: Option<Seq<char>>,
}

pub open spec fn opt_view(s: Option<String>) -> Option<Seq<char>> {
    match s {
        Some(v) => Some(v@),
        None => None,
    }
}

impl View for CeremonyState {
    type V = CeremonyStateView;

    open spec fn view(&self) -> CeremonyStateView {
        CeremonyStateView {
            ceremony_type: self.ceremony_type,
            assume_yes: self.assume_yes,
            output_directory: self.output_directory@,
            covernode_count: self.covernode_count,
            covernode_db_password: opt_view(self.covernode_db_password),
            org_key_pair: self.org_key_pair,
            journalist_provisioning_key_pair_file: opt_view(self.journalist_provisioning_key_pair_file),
            covernode_provisioning_key_pair_file: opt_view(self.covernode_provisioning_key_pair_file),
            admin_key_pair_file: opt_view(self.admin_key_pair_file),
            backup_id_key_pair_file: opt_view(self.backup_id_key_pair_file),
            backup_msg_key_pair_file: opt_view(self.backup_msg_key_pair_file),
            anchor_org_pk_file: opt_view(self.anchor_org_pk_file),
            set_system_status_available_bundle: opt_view(self.set_system_status_available_bundle),
            public_key_forms_bundle: opt_view(self.public_key_forms_bundle),
        }
    }
}

/// The settings a ceremony can start with: an initial setup needs the number
/// of CoverNodes and the CoverNode database password; a CoverNode count, when
/// given, is at least one.
pub open spec fn settings_valid(
    t: CeremonyType,
    covernode_count: Option<u8>,
    has_password: bool,
) -> bool {
    &&& (t == CeremonyType::InitialSetup ==> covernode_count is Some && has_password)
    &&& (covernode_count matches Some(c) ==> c > 0)
}

/// A state before any step: only the settings, and the organization key pair
/// when one was provided.
pub open spec fn fresh_state(s: CeremonyStateView) -> bool {
    &&& settings_valid(s.ceremony_type, s.covernode_count, s.covernode_db_password is Some)
    &&& s.journalist_provisioning_key_pair_file is None
    &&& s.covernode_provisioning_key_pair_file is None
    &&& s.admin_key_pair_file is None
    &&& s.backup_id_key_pair_file is None
    &&& s.backup_msg_key_pair_file is None
    &&& s.anchor_org_pk_file is None
    &&& s.set_system_status_available_bundle is None
    &&& s.public_key_forms_bundle is None
}

/// What a step needs from the steps before it.
pub open spec fn requirements_met(step: CeremonyStep, s: CeremonyStateView) -> bool {
    if skipped_spec(step, s.ceremony_type) {
        true
    } else {
        match step {
            CeremonyStep::GenerateJournalistProvisioningKeyPair => s.org_key_pair,
            CeremonyStep::GenerateCoverNodeProvisioningKeyPair => s.org_key_pair,
            CeremonyStep::GenerateCoverNodeDatabase => {
                &&& s.covernode_count is Some
                &&& s.covernode_db_password is Some
                &&& s.covernode_provisioning_key_pair_file is Some
            },
            CeremonyStep::GenerateAdminKeyPair => s.org_key_pair,
            CeremonyStep::GenerateBackupKeys => s.org_key_pair,
            CeremonyStep::GenerateSystemStatusBundle => s.admin_key_pair_file is Some,
            CeremonyStep::GenerateAnchorOrganizationPublicKeyFile => s.org_key_pair,
            CeremonyStep::GeneratePublicKeyFormsBundle => {
                &&& s.org_key_pair
                &&& s.journalist_provisioning_key_pair_file is Some
                &&& s.covernode_provisioning_key_pair_file is Some
                &&& s.admin_key_pair_file is Some
                &&& s.backup_id_key_pair_file is Some
                &&& s.backup_msg_key_pair_file is Some
            },
            _ => true,
        }
    }
}

/// The state once `step` has handed back `out`: the step's own entry is set,
/// nothing else changes.
pub open spec fn record_spec(s: CeremonyStateView, step: CeremonyStep, out: StepOutputView) -> CeremonyStateView {
    match out {
        StepOutputView::OrgKeyPair => CeremonyStateView { org_key_pair: true, ..s },
        StepOutputView::File(f) => match step {
            CeremonyStep::GenerateJournalistProvisioningKeyPair => CeremonyStateView {
                journalist_provisioning_key_pair_file: Some(f),
                ..s
            },
            CeremonyStep::GenerateCoverNodeProvisioningKeyPair => CeremonyStateView {
                covernode_provisioning_key_pair_file: Some(f),
                ..s
            },
            CeremonyStep::GenerateAdminKeyPair => CeremonyStateView { admin_key_pair_file: Some(f), ..s },
            CeremonyStep::GenerateSystemStatusBundle => CeremonyStateView {
                set_system_status_available_bundle: Some(f),
                ..s
            },
            CeremonyStep::GenerateAnchorOrganizationPublicKeyFile => CeremonyStateView {
                anchor_org_pk_file: Some(f),
                ..s
            },
            CeremonyStep::GeneratePublicKeyFormsBundle => CeremonyStateView {
                public_key_forms_bundle: Some(f),
                ..s
            },
            _ => s,
        },
        StepOutputView::BackupKeyPairFiles(a, b) => CeremonyStateView {
            backup_id_key_pair_file: Some(a),
            backup_msg_key_pair_file: Some(b),
            ..s
        },
        StepOutputView::Nothing => s,
    }
}

/// What the state holds of `step`'s work, in the shape the step hands it back.
pub open spec fn artifact_of(step: CeremonyStep, s: CeremonyStateView) -> StepOutputView {
    let file = |f: Option<Seq<char>>|
        match f {
            Some(v) => StepOutputView::File(v),
            None => StepOutputView::Nothing,
        };
    match step {
        CeremonyStep::GenerateOrganizationKeyPair => if s.org_key_pair {
            StepOutputView::OrgKeyPair
        } else {
            StepOutputView::Nothing
        },
        CeremonyStep::GenerateJournalistProvisioningKeyPair => file(s.journalist_provisioning_key_pair_file),
        CeremonyStep::GenerateCoverNodeProvisioningKeyPair => file(s.covernode_provisioning_key_pair_file),
        CeremonyStep::GenerateAdminKeyPair => file(s.admin_key_pair_file),
        CeremonyStep::GenerateBackupKeys => match (s.backup_id_key_pair_file, s.backup_msg_key_pair_file) {
            (Some(a), Some(b)) => StepOutputView::BackupKeyPairFiles(a, b),
            _ => StepOutputView::Nothing,
        },
        CeremonyStep::GenerateSystemStatusBundle => file(s.set_system_status_available_bundle),
        CeremonyStep::GenerateAnchorOrganizationPublicKeyFile => file(s.anchor_org_pk_file),
        CeremonyStep::GeneratePublicKeyFormsBundle => file(s.public_key_forms_bundle),
        _ => StepOutputView::Nothing,
    }
}

/// The state after the first `k` steps, step `j` having handed back `outs[j]`.
pub open spec fn run_steps(s0: CeremonyStateView, outs: Seq<StepOutputView>, k: nat) -> CeremonyStateView
    decreases k,
{
    if k == 0 {
        s0
    } else {
        record_spec(run_steps(s0, outs, (k - 1) as nat), all_steps_spec()[k - 1], outs[k - 1])
    }
}

impl CeremonyState {
    /// The state before any step.  An initial setup needs the CoverNode
    /// count and database password; a CoverNode count is at least one.
    pub fn new(
        ceremony_type: CeremonyType,
        assume_yes: AssumeYes,
        output_directory: String,
        covernode_count: Option<u8>,
        covernode_db_password: Option<String>,
        org_key_pair_provided: bool,
    ) -> (r: Self)
        requires
            settings_valid(ceremony_type, covernode_count, covernode_db_password is Some),
        ensures
            fresh_state(r@),
            r@.ceremony_type == ceremony_type,
            r@.assume_yes == assume_yes,
            r@.output_directory == output_directory@,
            r@.covernode_count == covernode_count,
            r@.covernode_db_password == opt_view(covernode_db_password),
            r@.org_key_pair == org_key_pair_provided,
    {
        CeremonyState {
            ceremony_type,
            assume_yes,
            output_directory,
            covernode_count,
            covernode_db_password,
            org_key_pair: org_key_pair_provided,
            journalist_provisioning_key_pair_file: None,
            covernode_provisioning_key_pair_file: None,
            admin_key_pair_file: None,
            backup_id_key_pair_file: None,
            backup_msg_key_pair_file: None,
            anchor_org_pk_file: None,
            set_system_status_available_bundle: None,
            public_key_forms_bundle: None,
        }
    }

    /// Whether the earlier steps left what `step` needs.
    pub fn requirements_met(&self, step: CeremonyStep) -> (r: bool)
        ensures
            r == requirements_met(step, self@),
    {
        if step.is_skipped(self.ceremony_type) {
            return true;
        }
        match step {
            CeremonyStep::GenerateJournalistProvisioningKeyPair => self.org_key_pair,
            CeremonyStep::GenerateCoverNodeProvisioningKeyPair => self.org_key_pair,
            CeremonyStep::GenerateCoverNodeDatabase => self.covernode_count.is_some()
                && self.covernode_db_password.is_some()
                && self.covernode_provisioning_key_pair_file.is_some(),
            CeremonyStep::GenerateAdminKeyPair => self.org_key_pair,
            CeremonyStep::GenerateBackupKeys => self.org_key_pair,
            CeremonyStep::GenerateSystemStatusBundle => self.admin_key_pair_file.is_some(),
            CeremonyStep::GenerateAnchorOrganizationPublicKeyFile => self.org_key_pair,
            CeremonyStep::GeneratePublicKeyFormsBundle => self.org_key_pair
                && self.journalist_provisioning_key_pair_file.is_some()
                && self.covernode_provisioning_key_pair_file.is_some()
                && self.admin_key_pair_file.is_some()
                && self.backup_id_key_pair_file.is_some()
                && self.backup_msg_key_pair_file.is_some(),
            _ => true,
        }
    }

    /// Records what `step` produced.
    pub fn record(&mut self, step: CeremonyStep, output: StepOutput)
        ensures
            final(self)@ == record_spec(old(self)@, step, output@),
    {
        match output {
            StepOutput::OrgKeyPair => {
                self.org_key_pair = true;
            },
            StepOutput::File(f) => match step {
                CeremonyStep::GenerateJournalistProvisioningKeyPair => {
                    self.journalist_provisioning_key_pair_file = Some(f);
                },
                CeremonyStep::GenerateCoverNodeProvisioningKeyPair => {
                    self.covernode_provisioning_key_pair_file = Some(f);
                },
                CeremonyStep::GenerateAdminKeyPair => {
                    self.admin_key_pair_file = Some(f);
                },
                CeremonyStep::GenerateSystemStatusBundle => {
                    self.set_system_status_available_bundle = Some(f);
                },
                CeremonyStep::GenerateAnchorOrganizationPublicKeyFile => {
                    self.anchor_org_pk_file = Some(f);
                },
                CeremonyStep::GeneratePublicKeyFormsBundle => {
                    self.public_key_forms_bundle = Some(f);
                },
                _ => {},
            },
            StepOutput::BackupKeyPairFiles(a, b) => {
                self.backup_id_key_pair_file = Some(a);
                self.backup_msg_key_pair_file = Some(b);
            },
            StepOutput::Nothing => {},
        }
    }
}


/// Outputs fitting each of the steps, one per step.
pub open spec fn outputs_fit(t: CeremonyType, outs: Seq<StepOutputView>) -> bool {
    &&& outs.len() == all_steps_spec().len()
    &&& forall|j: int| 0 <= j < outs.len() ==> output_fits(all_steps_spec()[j], t, #[trigger] outs[j])
}

proof fn lemma_record_frame(s: CeremonyStateView, step: CeremonyStep, other: CeremonyStep, out: StepOutputView)
    requires
        output_fits(step, s.ceremony_type, out),
        other != step,
    ensures
        artifact_of(other, record_spec(s, step, out)) == artifact_of(other, s),
{
}

proof fn lemma_record_settings(s: CeremonyStateView, step: CeremonyStep, out: StepOutputView)
    ensures
        record_spec(s, step, out).ceremony_type == s.ceremony_type,
        record_spec(s, step, out).covernode_count == s.covernode_count,
        record_spec(s, step, out).covernode_db_password == s.covernode_db_password,
{
}

proof fn lemma_record_own(s: CeremonyStateView, step: CeremonyStep, out: StepOutputView)
    requires
        output_fits(step, s.ceremony_type, out),
        step != CeremonyStep::GenerateOrganizationKeyPair ==> artifact_of(step, s) is Nothing,
    ensures
        artifact_of(step, record_spec(s, step, out)) == out,
{
}

proof fn lemma_run_artifacts(s0: CeremonyStateView, outs: Seq<StepOutputView>, k: nat)
    requires
        fresh_state(s0),
        outputs_fit(s0.ceremony_type, outs),
        k <= 11,
    ensures
        ({
            let s = run_steps(s0, outs, k);
            &&& s.ceremony_type == s0.ceremony_type
            &&& s.covernode_count == s0.covernode_count
            &&& s.covernode_db_password == s0.covernode_db_password
            &&& forall|j: int| 0 <= j < k ==> artifact_of(#[trigger] all_steps_spec()[j], s) == outs[j]
            &&& forall|j: int|
                k <= j < 11 && j != 1 ==> (artifact_of(#[trigger] all_steps_spec()[j], s) is Nothing)
        }),
    decreases k,
{
    let st = all_steps_spec();
    if k == 0 {
        assert forall|j: int| 0 <= j < 11 && j != 1 implies (artifact_of(#[trigger] st[j], s0) is Nothing) by {
        }
    } else {
        let km = (k - 1) as nat;
        lemma_run_artifacts(s0, outs, km);
        let prev = run_steps(s0, outs, km);
        let step = st[km as int];
        let out = outs[km as int];
        assert(output_fits(step, s0.ceremony_type, out));
        let s = run_steps(s0, outs, k);
        assert(s == record_spec(prev, step, out));
        lemma_record_own(prev, step, out);
        assert forall|j: int| 0 <= j < k implies artifact_of(#[trigger] st[j], s) == outs[j] by {
            if j < km {
                lemma_record_frame(prev, step, st[j], out);
            }
        }
        assert forall|j: int| k <= j < 11 && j != 1 implies (artifact_of(#[trigger] st[j], s) is Nothing) by {
            lemma_record_frame(prev, step, st[j], out);
        }
        lemma_record_settings(prev, step, out);
    }
}

/// The ceremony's steps come in an order that works: run in order from a
/// fresh state, each step handing back an output that fits it, every step
/// finds what it needs already produced by the steps before it.
pub proof fn lemma_steps_find_their_requirements(s0: CeremonyStateView, outs: Seq<StepOutputView>)
    requires
        fresh_state(s0),
        outputs_fit(s0.ceremony_type, outs),
    ensures
        forall|k: int| 0 <= k < 11 ==> requirements_met(
            #[trigger] all_steps_spec()[k],
            run_steps(s0, outs, k as nat),
        ),
{
    let st = all_steps_spec();
    assert forall|k: int| 0 <= k < 11 implies requirements_met(#[trigger] st[k], run_steps(s0, outs, k as nat)) by {
        lemma_run_artifacts(s0, outs, k as nat);
        let s = run_steps(s0, outs, k as nat);
        if k >= 2 {
            assert(artifact_of(st[1], s) == outs[1]);
        }
        if k >= 3 {
            assert(artifact_of(st[2], s) == outs[2]);
        }
        if k >= 4 {
            assert(artifact_of(st[3], s) == outs[3]);
        }
        if k >= 6 {
            assert(artifact_of(st[5], s) == outs[5]);
        }
        if k >= 7 {
            assert(artifact_of(st[6], s) == outs[6]);
        }
    }
}

/// Each step leaves its output in the state, and later steps keep it: after
/// the first `k` steps, what the state holds of step `j < k` is exactly what
/// step `j` handed back.  Steps that the ceremony skips leave nothing.
pub proof fn lemma_step_outputs_are_kept(s0: CeremonyStateView, outs: Seq<StepOutputView>, k: nat)
    requires
        fresh_state(s0),
        outputs_fit(s0.ceremony_type, outs),
        k <= 11,
    ensures
        forall|j: int| 0 <= j < k ==> artifact_of(#[trigger] all_steps_spec()[j], run_steps(s0, outs, k))
            == outs[j],
{
    lemma_run_artifacts(s0, outs, k);
}


/// A complete initial setup leaves every key pair file and bundle in the
/// state; a complete organization key rotation leaves all but the system
/// status bundle, which it never makes.
pub proof fn lemma_complete_ceremony_artifacts(s0: CeremonyStateView, outs: Seq<StepOutputView>)
    requires
        fresh_state(s0),
        outputs_fit(s0.ceremony_type, outs),
    ensures
        ({
            let s = run_steps(s0, outs, 11);
            &&& s.org_key_pair
            &&& s.journalist_provisioning_key_pair_file is Some
            &&& s.covernode_provisioning_key_pair_file is Some
            &&& s.admin_key_pair_file is Some
            &&& s.backup_id_key_pair_file is Some
            &&& s.backup_msg_key_pair_file is Some
            &&& s.anchor_org_pk_file is Some
            &&& s.public_key_forms_bundle is Some
            &&& (s.set_system_status_available_bundle is Some <==> s0.ceremony_type
                == CeremonyType::InitialSetup)
        }),
{
    lemma_run_artifacts(s0, outs, 11);
    let st = all_steps_spec();
    let s = run_steps(s0, outs, 11);
    assert(artifact_of(st[1], s) == outs[1]);
    assert(artifact_of(st[2], s) == outs[2]);
    assert(artifact_of(st[3], s) == outs[3]);
    assert(artifact_of(st[5], s) == outs[5]);
    assert(artifact_of(st[6], s) == outs[6]);
    assert(artifact_of(st[7], s) == outs[7]);
    assert(artifact_of(st[8], s) == outs[8]);
    assert(artifact_of(st[9], s) == outs[9]);
}

// ---------------------------------------------------------------------------
// What the operator is told.
// ---------------------------------------------------------------------------

/// The lines naming each required device, in device order.
pub open spec fn device_lines(devices: Seq<UsbDevice>, t: CeremonyType) -> Seq<char>
    decreases devices.len(),
{
    if devices.len() == 0 {
        seq![]
    } else {
        let rest = device_lines(devices.drop_last(), t);
        if required_for_spec(devices.last(), t) {
            rest + "\n- "@ + usb_description_spec(devices.last())
        } else {
            rest
        }
    }
}

pub open spec fn required_materials_message_spec(t: CeremonyType) -> Seq<char> {
    "You will need the following removable devices to store the material."@
        + "\nMake sure all devices are appropriately labelled as"@ + device_lines(all_devices_spec(), t)
        + "\nDo you have all removable devices to hand?"@
}

/// The question listing the removable devices this kind of ceremony needs.
pub fn required_materials_message(ceremony_type: CeremonyType) -> (r: String)
    ensures
        r@ == required_materials_message_spec(ceremony_type),
{
    let mut r = String::from_str("You will need the following removable devices to store the material.");
    r.append("\nMake sure all devices are appropriately labelled as");
    let ghost head = r@;
    let devices = UsbDevice::all_devices();
    let mut i: usize = 0;
    while i < devices.len()
        invariant
            i <= devices.len(),
            devices@ == all_devices_spec(),
            r@ == head + device_lines(devices@.take(i as int), ceremony_type),
        decreases devices.len() - i,
    {
        assert(devices@.take(i + 1).drop_last() =~= devices@.take(i as int));
        let device = devices[i];
        if device.required_for_ceremony_type(&ceremony_type) {
            r.append("\n- ");
            r.append(device.description());
        }
        assert(r@ =~= head + device_lines(devices@.take(i + 1), ceremony_type));
        i = i + 1;
    }
    assert(devices@.take(devices.len() as int) =~= devices@);
    r.append("\nDo you have all removable devices to hand?");
    r
}

pub open spec fn environment_message_spec(t: CeremonyType) -> Seq<char> {
    (match t {
        CeremonyType::InitialSetup => "You're about to start the initial key ceremony to set up CoverDrop."@,
        CeremonyType::OrgKeyRotation => "You're about to start the organization key rotation ceremony."@,
    })
        + "\nThis ceremony should be run on a tails machine with no network access, and with a clock set to the correct time."@
        + "\nPlease confirm you are running in such an environment."@
}

/// The question asking the operator to confirm a safe environment.
pub fn environment_message(ceremony_type: CeremonyType) -> (r: String)
    ensures
        r@ == environment_message_spec(ceremony_type),
{
    let mut r = match ceremony_type {
        CeremonyType::InitialSetup => String::from_str(
            "You're about to start the initial key ceremony to set up CoverDrop.",
        ),
        CeremonyType::OrgKeyRotation => String::from_str(
            "You're about to start the organization key rotation ceremony.",
        ),
    };
    r.append(
        "\nThis ceremony should be run on a tails machine with no network access, and with a clock set to the correct time.",
    );
    r.append("\nPlease confirm you are running in such an environment.");
    r
}

/// Whether the step's title is shown before it runs.
pub open spec fn shows_title_spec(assume_yes: AssumeYes) -> bool {
    assume_yes == AssumeYes::AlwaysAsk
}

/// The step's title is shown only when the operator is being asked.
pub fn shows_title(assume_yes: AssumeYes) -> (r: bool)
    ensures
        r == shows_title_spec(assume_yes),
{
    assume_yes == AssumeYes::AlwaysAsk
}

/// Whether the operator must answer a confirmation: always for the question
/// about the environment, otherwise only when confirmations are not assumed.
pub open spec fn must_confirm_spec(assume_yes: AssumeYes) -> bool {
    assume_yes == AssumeYes::AlwaysAsk
}

pub fn must_confirm(assume_yes: AssumeYes) -> (r: bool)
    ensures
        r == must_confirm_spec(assume_yes),
{
    assume_yes != AssumeYes::DefaultYes
}

/// Whether a line typed by the operator confirms: it is the word `yes`,
/// once trimmed and lower-cased.
pub fn is_confirmation(trimmed_lowercase_input: &str) -> (r: bool)
    ensures
        r == (trimmed_lowercase_input@ == "yes"@),
{
    let yes = "yes";
    proof {
        reveal_strlit("yes");
    }
    if trimmed_lowercase_input.unicode_len() != 3 {
        return false;
    }
    let c0 = trimmed_lowercase_input.get_char(0);
    let c1 = trimmed_lowercase_input.get_char(1);
    let c2 = trimmed_lowercase_input.get_char(2);
    let r = c0 == 'y' && c1 == 'e' && c2 == 's';
    if r {
        assert(trimmed_lowercase_input@ =~= yes@);
    }
    r
}


/// A device instruction: `prefix`, the device's label, `suffix`.
pub open spec fn device_line(prefix: Seq<char>, d: UsbDevice, suffix: Seq<char>) -> Seq<char> {
    prefix + usb_description_spec(d) + suffix
}

fn device_line_exec(prefix: &str, d: UsbDevice, suffix: &str) -> (r: String)
    ensures
        r@ == device_line(prefix@, d, suffix@),
{
    let mut r = String::from_str(prefix);
    r.append(d.description());
    r.append(suffix);
    r
}

fn text_line(prefix: &str, middle: &String, suffix: &str) -> (r: String)
    ensures
        r@ == prefix@ + middle@ + suffix@,
{
    let mut r = String::from_str(prefix);
    r.append(middle.as_str());
    r.append(suffix);
    r
}

/// The file that the step's prompt names, once the step has recorded it.
pub open spec fn prompt_ready(step: CeremonyStep, s: CeremonyStateView) -> bool {
    match step {
        CeremonyStep::GenerateBackupKeys => s.backup_id_key_pair_file is Some && s.backup_msg_key_pair_file is Some,
        CeremonyStep::GenerateAnchorOrganizationPublicKeyFile => s.anchor_org_pk_file is Some,
        CeremonyStep::GeneratePublicKeyFormsBundle => s.public_key_forms_bundle is Some,
        _ => true,
    }
}

/// The lines of the question each step puts to the operator.  The first
/// step asks about the devices; the organization key step asks before it
/// makes a key pair; every other step asks, once it has recorded its work,
/// whether the material was moved where it belongs.
pub open spec fn prompt_lines(step: CeremonyStep, s: CeremonyStateView) -> Seq<Seq<char>> {
    match step {
        CeremonyStep::InitialStep => seq![required_materials_message_spec(s.ceremony_type)],
        CeremonyStep::GenerateOrganizationKeyPair => seq![
            "The organization key pair is about to be created."@,
            "This is the most sensitive key pair and needs to be stored as securely as possible."@,
            "If the secret key is ever leaked, the whole system's integrity is compromised and a new ceremony will have to be started."@,
            "Do you understand?"@,
        ],
        CeremonyStep::GenerateJournalistProvisioningKeyPair => seq![
            "The journalist provisioning key pair has been created."@,
            "Make sure the following steps are completed:"@,
            device_line("- Copy the journalist provisioning key pair to removable device '"@, UsbDevice::IdentityAPI, "'."@),
            device_line("- Copy the journalist provisioning key pair to removable device '"@, UsbDevice::EditorialStaff, "'. This will be used by the editorial staff creating journalists."@),
            "Have you completed both steps?"@,
        ],
        CeremonyStep::GenerateCoverNodeProvisioningKeyPair => seq![
            "The CoverNode provisioning key pair has been created."@,
            "Make sure the following step is completed:"@,
            device_line("- Move the CoverNode provisioning key pair to removable device '"@, UsbDevice::IdentityAPI, "'."@),
            "Have you completed this step?"@,
        ],
        CeremonyStep::GenerateCoverNodeDatabase => seq![
            "The CoverNode database(s) has been created."@,
            "Make sure the following step is completed:"@,
            device_line("- Move the CoverNode database(s) to removable device '"@, UsbDevice::CoverNodeDatabase, "'."@),
            "This will be used by the CoverNode."@,
            "Have you completed this step?"@,
        ],
        CeremonyStep::GenerateAdminKeyPair => seq![
            "The admin key pair has been created."@,
            "Make sure the following step is completed:"@,
            device_line("- Move the admin key pair to removable device '"@, UsbDevice::AdminKeyPair, "'."@),
            "Have you completed this step?"@,
        ],
        CeremonyStep::GenerateBackupKeys => seq![
            "The backup id key has been created and written to "@ + s.backup_id_key_pair_file.unwrap() + "."@,
            "The backup msg key has been created and written to "@ + s.backup_msg_key_pair_file.unwrap() + "."@,
            "Make sure the following step is completed:"@,
            device_line("- Move both of the backup keys to removable device '"@, UsbDevice::BackupKeys, "'."@),
            "Have you completed this step?"@,
        ],
        CeremonyStep::GenerateSystemStatusBundle => seq![
            "The set system status bundle has been created."@,
            "This will be used in the post-ceremony to send a request to the API to mark CoverDrop as available."@,
            "Make sure the following step is completed:"@,
            device_line("- Move the set system status bundle to removable device '"@, UsbDevice::PublicKeysAndForms, "'."@),
            "Have you completed this step?"@,
        ],
        CeremonyStep::GenerateAnchorOrganizationPublicKeyFile => seq![
            "The anchor organization public key file has been written to "@ + s.anchor_org_pk_file.unwrap() + "."@,
            "This trust anchor needs to be added to each component of the system."@,
            "Make sure the following step is completed:"@,
            device_line("- Copy anchor organization public key file to removable device '"@, UsbDevice::EditorialStaff, "'. This will be used to verify the journalist provisioning key pair."@),
            device_line("- Copy anchor organization public key file to removable device '"@, UsbDevice::PublicKeysAndForms, "'."@),
            "Have you completed this step?"@,
        ],
        CeremonyStep::GeneratePublicKeyFormsBundle => seq![
            "The public key forms bundle has been written to "@ + s.public_key_forms_bundle.unwrap() + "."@,
            "This will be used in the post-ceremony to bootstrap the public key infrastructure."@,
            "Make sure the following step is completed:"@,
            device_line("- Move public key forms bundle to removable device '"@, UsbDevice::PublicKeysAndForms, "'."@),
            "Have you completed this step?"@,
        ],
        CeremonyStep::FinalStep => seq![
            "The key ceremony is complete."@,
            "All the key material and forms generated during the ceremony must now be deleted."@,
            "Make sure you have transferred the bundles to the appropriate devices."@,
            "Have you deleted all the bundles?"@,
        ],
    }
}

/// The question the step puts to the operator: its lines, one per line.
pub fn step_prompt(step: CeremonyStep, state: &CeremonyState) -> (r: String)
    requires
        prompt_ready(step, state@),
    ensures
        r@ == join_with(prompt_lines(step, state@), "\n"@),
{
    let mut lines: Vec<String> = Vec::new();
    match step {
        CeremonyStep::InitialStep => {
            lines.push(required_materials_message(state.ceremony_type));
        },
        CeremonyStep::GenerateOrganizationKeyPair => {
            lines.push(String::from_str("The organization key pair is about to be created."));
            lines.push(String::from_str("This is the most sensitive key pair and needs to be stored as securely as possible."));
            lines.push(String::from_str("If the secret key is ever leaked, the whole system's integrity is compromised and a new ceremony will have to be started."));
            lines.push(String::from_str("Do you understand?"));
        },
        CeremonyStep::GenerateJournalistProvisioningKeyPair => {
            lines.push(String::from_str("The journalist provisioning key pair has been created."));
            lines.push(String::from_str("Make sure the following steps are completed:"));
            lines.push(device_line_exec("- Copy the journalist provisioning key pair to removable device '", UsbDevice::IdentityAPI, "'."));
            lines.push(device_line_exec("- Copy the journalist provisioning key pair to removable device '", UsbDevice::EditorialStaff, "'. This will be used by the editorial staff creating journalists."));
            lines.push(String::from_str("Have you completed both steps?"));
        },
        CeremonyStep::GenerateCoverNodeProvisioningKeyPair => {
            lines.push(String::from_str("The CoverNode provisioning key pair has been created."));
            lines.push(String::from_str("Make sure the following step is completed:"));
            lines.push(device_line_exec("- Move the CoverNode provisioning key pair to removable device '", UsbDevice::IdentityAPI, "'."));
            lines.push(String::from_str("Have you completed this step?"));
        },
        CeremonyStep::GenerateCoverNodeDatabase => {
            lines.push(String::from_str("The CoverNode database(s) has been created."));
            lines.push(String::from_str("Make sure the following step is completed:"));
            lines.push(device_line_exec("- Move the CoverNode database(s) to removable device '", UsbDevice::CoverNodeDatabase, "'."));
            lines.push(String::from_str("This will be used by the CoverNode."));
            lines.push(String::from_str("Have you completed this step?"));
        },
        CeremonyStep::GenerateAdminKeyPair => {
            lines.push(String::from_str("The admin key pair has been created."));
            lines.push(String::from_str("Make sure the following step is completed:"));
            lines.push(device_line_exec("- Move the admin key pair to removable device '", UsbDevice::AdminKeyPair, "'."));
            lines.push(String::from_str("Have you completed this step?"));
        },
        CeremonyStep::GenerateBackupKeys => {
            let id_file = state.backup_id_key_pair_file.as_ref().unwrap();
            let msg_file = state.backup_msg_key_pair_file.as_ref().unwrap();
            lines.push(text_line("The backup id key has been created and written to ", id_file, "."));
            lines.push(text_line("The backup msg key has been created and written to ", msg_file, "."));
            lines.push(String::from_str("Make sure the following step is completed:"));
            lines.push(device_line_exec("- Move both of the backup keys to removable device '", UsbDevice::BackupKeys, "'."));
            lines.push(String::from_str("Have you completed this step?"));
        },
        CeremonyStep::GenerateSystemStatusBundle => {
            lines.push(String::from_str("The set system status bundle has been created."));
            lines.push(String::from_str("This will be used in the post-ceremony to send a request to the API to mark CoverDrop as available."));
            lines.push(String::from_str("Make sure the following step is completed:"));
            lines.push(device_line_exec("- Move the set system status bundle to removable device '", UsbDevice::PublicKeysAndForms, "'."));
            lines.push(String::from_str("Have you completed this step?"));
        },
        CeremonyStep::GenerateAnchorOrganizationPublicKeyFile => {
            let file = state.anchor_org_pk_file.as_ref().unwrap();
            lines.push(text_line("The anchor organization public key file has been written to ", file, "."));
            lines.push(String::from_str("This trust anchor needs to be added to each component of the system."));
            lines.push(String::from_str("Make sure the following step is completed:"));
            lines.push(device_line_exec("- Copy anchor organization public key file to removable device '", UsbDevice::EditorialStaff, "'. This will be used to verify the journalist provisioning key pair."));
            lines.push(device_line_exec("- Copy anchor organization public key file to removable device '", UsbDevice::PublicKeysAndForms, "'."));
            lines.push(String::from_str("Have you completed this step?"));
        },
        CeremonyStep::GeneratePublicKeyFormsBundle => {
            let file = state.public_key_forms_bundle.as_ref().unwrap();
            lines.push(text_line("The public key forms bundle has been written to ", file, "."));
            lines.push(String::from_str("This will be used in the post-ceremony to bootstrap the public key infrastructure."));
            lines.push(String::from_str("Make sure the following step is completed:"));
            lines.push(device_line_exec("- Move public key forms bundle to removable device '", UsbDevice::PublicKeysAndForms, "'."));
            lines.push(String::from_str("Have you completed this step?"));
        },
        CeremonyStep::FinalStep => {
            lines.push(String::from_str("The key ceremony is complete."));
            lines.push(String::from_str("All the key material and forms generated during the ceremony must now be deleted."));
            lines.push(String::from_str("Make sure you have transferred the bundles to the appropriate devices."));
            lines.push(String::from_str("Have you deleted all the bundles?"));
        },
    }
    assert(strings_view(lines@) =~= prompt_lines(step, state@));
    join_strings(&lines, "\n")
}

/// What the operator is told when a step is left out.
pub open spec fn skip_message_spec(step: CeremonyStep) -> Seq<char> {
    match step {
        CeremonyStep::GenerateCoverNodeDatabase => "Skipping CoverNode database generation during organization key rotation."@,
        _ => "Skipping set system status bundle during organization key rotation."@,
    }
}

/// What the operator is told when a step is left out.
pub fn skip_message(step: CeremonyStep) -> (r: &'static str)
    ensures
        r@ == skip_message_spec(step),
{
    match step {
        CeremonyStep::GenerateCoverNodeDatabase => "Skipping CoverNode database generation during organization key rotation.",
        _ => "Skipping set system status bundle during organization key rotation.",
    }
}

/// What the operator is told about the organization key pair.
pub fn org_key_pair_message(preprovided: bool) -> (r: &'static str)
    ensures
        r@ == (if preprovided { "Using pre-provided organization key pair."@ } else { "Generated new organization key pair."@ }),
{
    if preprovided {
        "Using pre-provided organization key pair."
    } else {
        "Generated new organization key pair."
    }
}

// ---------------------------------------------------------------------------
// Protecting the copies of the organization key pair.
// ---------------------------------------------------------------------------

/// The name of the encrypted copy of a key pair file.
pub fn encrypted_file_name(key_pair_file: &str) -> (r: String)
    ensures
        r@ == key_pair_file@ + ".age"@,
{
    let mut r = String::from_str(key_pair_file);
    r.append(".age");
    r
}

/// The name of the file holding a copy's passphrase.
pub fn passphrase_file_name(copy: OrgKeyPairCopy) -> (r: String)
    ensures
        r@ == "org_key_pair_passphrase_"@ + copy_number_spec(copy) + ".txt"@,
{
    let mut r = String::from_str("org_key_pair_passphrase_");
    r.append(copy.number());
    r.append(".txt");
    r
}

pub open spec fn encryption_prompt_spec(
    copy: OrgKeyPairCopy,
    key_pair_file: Seq<char>,
    passphrase: Seq<char>,
) -> Seq<char> {
    "Use age to encrypt the organization key pair "@ + copy_number_spec(copy)
        + " \nusing the following command:\n\n        ./age -p "@ + key_pair_file + " > "@
        + key_pair_file + ".age"@ + "\n  enter this passphrase when prompted: "@ + passphrase
}

/// The instructions to encrypt one copy of the organization key pair.
pub fn encryption_prompt(copy: OrgKeyPairCopy, key_pair_file: &str, passphrase: &str) -> (r: String)
    ensures
        r@ == encryption_prompt_spec(copy, key_pair_file@, passphrase@),
{
    let mut r = String::from_str("Use age to encrypt the organization key pair ");
    r.append(copy.number());
    r.append(" \nusing the following command:\n\n        ./age -p ");
    r.append(key_pair_file);
    r.append(" > ");
    r.append(key_pair_file);
    r.append(".age");
    r.append("\n  enter this passphrase when prompted: ");
    r.append(passphrase);
    r
}

pub open spec fn move_copy_prompt_spec(copy: OrgKeyPairCopy, encrypted_file: Seq<char>, passphrase_file: Seq<char>) -> Seq<char> {
    "Move org key "@ + encrypted_file + " to removable device '"@ + usb_description_spec(
        UsbDevice::OrgKeyPair(copy),
    ) + "' and passphrase "@ + passphrase_file + " to removable device '"@ + usb_description_spec(
        UsbDevice::OrgKeyPairPassword(copy),
    ) + "'"@
}

/// The instruction to move one encrypted copy and its passphrase to their devices.
pub fn move_copy_prompt(copy: OrgKeyPairCopy, encrypted_file: &str, passphrase_file: &str) -> (r: String)
    ensures
        r@ == move_copy_prompt_spec(copy, encrypted_file@, passphrase_file@),
{
    let mut r = String::from_str("Move org key ");
    r.append(encrypted_file);
    r.append(" to removable device '");
    r.append(UsbDevice::OrgKeyPair(copy).description());
    r.append("' and passphrase ");
    r.append(passphrase_file);
    r.append(" to removable device '");
    r.append(UsbDevice::OrgKeyPairPassword(copy).description());
    r.append("'");
    r
}

// ---------------------------------------------------------------------------
// After the ceremony.
// ---------------------------------------------------------------------------

/// The bundle of public key forms to upload.
pub open spec fn public_key_forms_bundle_file_name() -> Seq<char> {
    "public_key_forms.bundle.json"@
}

/// The bundle that marks the system available.
pub open spec fn system_status_bundle_file_name() -> Seq<char> {
    "set_system_status_available.bundle.json"@
}

/// The file name of the bundle of public key forms.
pub fn public_key_forms_bundle_name() -> (r: &'static str)
    ensures
        r@ == public_key_forms_bundle_file_name(),
{
    "public_key_forms.bundle.json"
}

/// The file name of the bundle that marks the system available.
pub fn system_status_bundle_name() -> (r: &'static str)
    ensures
        r@ == system_status_bundle_file_name(),
{
    "set_system_status_available.bundle.json"
}

/// The bundles that the steps after the ceremony read: the public key forms,
/// and for an initial setup also the system status bundle.
pub open spec fn post_ceremony_bundles_spec(t: CeremonyType) -> Seq<Seq<char>> {
    if t == CeremonyType::InitialSetup {
        seq![public_key_forms_bundle_file_name(), system_status_bundle_file_name()]
    } else {
        seq![public_key_forms_bundle_file_name()]
    }
}

/// The file names of the bundles that the steps after the ceremony read.
pub fn post_ceremony_bundles(ceremony_type: CeremonyType) -> (r: Vec<String>)
    ensures
        strings_view(r@) == post_ceremony_bundles_spec(ceremony_type),
{
    let mut r: Vec<String> = Vec::new();
    r.push(String::from_str(public_key_forms_bundle_name()));
    if ceremony_type == CeremonyType::InitialSetup {
        r.push(String::from_str(system_status_bundle_name()));
    }
    assert(strings_view(r@) =~= post_ceremony_bundles_spec(ceremony_type));
    r
}

/// The lines naming each missing bundle, in order.
pub open spec fn missing_lines(bundles: Seq<(Seq<char>, bool)>) -> Seq<char>
    decreases bundles.len(),
{
    if bundles.len() == 0 {
        seq![]
    } else {
        let rest = missing_lines(bundles.drop_last());
        if bundles.last().1 {
            rest
        } else {
            rest + bundles.last().0 + "\n"@
        }
    }
}

pub open spec fn bundles_view(b: Seq<(String, bool)>) -> Seq<(Seq<char>, bool)> {
    b.map_values(|e: (String, bool)| (e.0@, e.1))
}

/// Checks that every bundle the steps after the ceremony need exists, given
/// each bundle's path and whether it exists.  When some are missing, the
/// error lists them, one per line.
pub fn check_post_ceremony_bundles_exist(bundles: &Vec<(String, bool)>) -> (r: Result<(), String>)
    ensures
        (forall|i: int| 0 <= i < bundles.len() ==> (#[trigger] bundles@[i]).1) ==> r is Ok,
        !(forall|i: int| 0 <= i < bundles.len() ==> (#[trigger] bundles@[i]).1) ==> (r matches Err(m)
            && m@ == "The following files are required to run the post-ceremony actions, but were not found:\n"@
            + missing_lines(bundles_view(bundles@))),
{
    let ghost bv = bundles_view(bundles@);
    let mut all_exist = true;
    let mut i: usize = 0;
    while i < bundles.len()
        invariant
            i <= bundles.len(),
            all_exist == (forall|k: int| 0 <= k < i ==> (#[trigger] bundles@[k]).1),
        decreases bundles.len() - i,
    {
        if !bundles[i].1 {
            all_exist = false;
        }
        i = i + 1;
    }
    if all_exist {
        return Ok(());
    }
    let mut message = String::from_str(
        "The following files are required to run the post-ceremony actions, but were not found:\n",
    );
    let ghost head = message@;
    let mut j: usize = 0;
    while j < bundles.len()
        invariant
            j <= bundles.len(),
            bv == bundles_view(bundles@),
            message@ == head + missing_lines(bv.take(j as int)),
        decreases bundles.len() - j,
    {
        assert(bv.take(j + 1).drop_last() =~= bv.take(j as int));
        assert(bv.take(j + 1).last() == (bundles@[j as int].0@, bundles@[j as int].1));
        if !bundles[j].1 {
            message.append(bundles[j].0.as_str());
            message.append("\n");
        }
        assert(message@ =~= head + missing_lines(bv.take(j + 1)));
        j = j + 1;
    }
    assert(bv.take(bundles.len() as int) =~= bv);
    Err(message)
}

/// Exactly one trusted organization key must be found before the upload.
pub fn check_single_anchor_key(count: usize) -> (r: Result<(), String>)
    ensures
        count == 1 ==> r is Ok,
        count != 1 ==> (r matches Err(m) && m@ == "Expected exactly one trusted organization public key, found "@
            + crate::text::decimal(count as nat)),
{
    if count == 1 {
        Ok(())
    } else {
        let mut m = String::from_str("Expected exactly one trusted organization public key, found ");
        crate::text::push_decimal(&mut m, count as u64);
        Err(m)
    }
}

/// The longest the upload waits for the new organization key to show in the API, in seconds.
pub const ANCHOR_KEY_WAIT_SECONDS: i64 = 600;

/// The wait for the organization key has lasted too long.
pub fn anchor_key_wait_exceeded(elapsed_seconds: i64) -> (r: bool)
    ensures
        r == (elapsed_seconds > ANCHOR_KEY_WAIT_SECONDS),
{
    elapsed_seconds > ANCHOR_KEY_WAIT_SECONDS
}


/// The numbers of the CoverNodes whose databases an initial setup makes: one to `count`.
pub fn covernode_numbers(count: u8) -> (r: Vec<u8>)
    ensures
        r.len() == count,
        forall|i: int| 0 <= i < r.len() ==> #[trigger] r@[i] == i + 1,
{
    let mut r: Vec<u8> = Vec::new();
    let mut n: u8 = 0;
    while n < count
        invariant
            n <= count,
            r.len() == n,
            forall|i: int| 0 <= i < r.len() ==> #[trigger] r@[i] == i + 1,
        decreases count - n,
    {
        n = n + 1;
        r.push(n);
    }
    r
}

/// The file name of a CoverNode's database.
pub fn covernode_database_file_name(covernode_identity: &str) -> (r: String)
    ensures
        r@ == covernode_identity@ + ".db"@,
{
    let mut r = String::from_str(covernode_identity);
    r.append(".db");
    r
}

} // verus!
