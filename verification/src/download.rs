//! Checking a downloaded installer against the release manifest, and planning an update.
use vstd::prelude::*;

use base64::Engine;
use sha2::Digest;

use crate::update::{manifest_of, newer_version, parse_update_manifest, sibling_of, sibling_url, update_url_ok, update_url_allowed, version_is_newer};
use crate::text::{chars_of, push_str, string_from_chars};

verus! {

/// The bytes that standard base64 (with padding) decodes the text to; nothing when it is
/// not valid base64.
pub uninterp spec fn base64_standard_decoded(s: Seq<char>) -> Option<Seq<u8>>;

/// Decodes standard base64 (`base64::engine::general_purpose::STANDARD`) from the UTF-8
/// bytes of `s`.
#[verifier::external_body]
fn decode_base64(s: &str) -> (r: Option<Vec<u8>>)
    ensures
        r matches Some(v) ==> base64_standard_decoded(s@) == Some(v@),
        r is None ==> base64_standard_decoded(s@) is None,
{
    base64::engine::general_purpose::STANDARD.decode(s.as_bytes()).ok()
}

/// The SHA-512 digest of the bytes.
pub uninterp spec fn sha512_of(b: Seq<u8>) -> Seq<u8>;

/// The SHA-512 digest (`sha2::Sha512::digest`): 64 bytes.
#[verifier::external_body]
fn sha512_digest(b: &[u8]) -> (r: Vec<u8>)
    ensures
        r@ == sha512_of(b@),
        r@.len() == 64,
{
    sha2::Sha512::digest(b).to_vec()
}

fn bytes_equal(a: &Vec<u8>, b: &Vec<u8>) -> (r: bool)
    ensures
        r == (a@ == b@),
{
    if a.len() != b.len() {
        return false;
    }
    let mut i: usize = 0;
    while i < a.len()
        invariant
            a@.len() == b@.len(),
            i <= a@.len(),
            forall|j: int| 0 <= j < i ==> a@[j] == b@[j],
        decreases a@.len() - i,
    {
        if a[i] != b[i] {
            return false;
        }
        i = i + 1;
    }
    assert(a@ =~= b@);
    true
}

/// Whether the installer's SHA-512 digest is the one the manifest gives in base64.
pub open spec fn download_ok(bytes: Seq<u8>, sha512_b64: Seq<char>) -> bool {
    base64_standard_decoded(sha512_b64) matches Some(expected) && sha512_of(bytes) == expected
}

/// Checks a downloaded installer against the digest of the manifest; an undecodable
/// digest never matches.
pub fn installer_matches(bytes: &[u8], sha512_b64: &str) -> (ok: bool)
    ensures
        ok == download_ok(bytes@, sha512_b64@),
{
    let expected = match decode_base64(sha512_b64) {
        Some(e) => e,
        None => return false,
    };
    let actual = sha512_digest(bytes);
    bytes_equal(&actual, &expected)
}

/// What to download: the manifest's version, the installer address and the digest.
pub struct UpdatePlan {
    pub version: String,
    pub installer_url: String,
    pub sha512_b64: String,
}

impl UpdatePlan {
    /// The plan as plain texts.
    pub open spec fn texts(self) -> (Seq<char>, Seq<char>, Seq<char>) {
        (self.version@, self.installer_url@, self.sha512_b64@)
    }
}

impl Clone for UpdatePlan {
    fn clone(&self) -> (r: Self)
        ensures
            r == *self,
    {
        UpdatePlan {
            version: self.version.clone(),
            installer_url: self.installer_url.clone(),
            sha512_b64: self.sha512_b64.clone(),
        }
    }
}

/// The plan for a manifest fetched from `manifest_url`: only from an allowed address, for
/// a complete manifest of a later version than `current`, with the installer beside the
/// manifest.
pub open spec fn update_plan_of(manifest_url: Seq<char>, text: Seq<char>, current: Seq<char>) -> Option<
    (Seq<char>, Seq<char>, Seq<char>),
> {
    if !update_url_ok(manifest_url) {
        None
    } else {
        match manifest_of(text) {
            None => None,
            Some((v, p, h)) => if newer_version(v, current) != Some(true) {
                None
            } else {
                match sibling_of(manifest_url, p) {
                    None => None,
                    Some(u) => Some((v, u, h)),
                }
            },
        }
    }
}

pub fn plan_update(manifest_url: &str, text: &str, current: &str) -> (r: Option<UpdatePlan>)
    ensures
        r matches Some(p) ==> update_plan_of(manifest_url@, text@, current@) == Some(
            (p.version@, p.installer_url@, p.sha512_b64@),
        ),
        r is None <==> update_plan_of(manifest_url@, text@, current@) is None,
{
    if !update_url_allowed(manifest_url) {
        return None;
    }
    let m = match parse_update_manifest(text) {
        Some(m) => m,
        None => return None,
    };
    if version_is_newer(m.version.as_str(), current) != Some(true) {
        return None;
    }
    let url = match sibling_url(manifest_url, m.path.as_str()) {
        Some(u) => u,
        None => return None,
    };
    Some(UpdatePlan { version: m.version, installer_url: url, sha512_b64: m.sha512_b64 })
}

/// The file name the installer is saved under: `maxalert-update-<version>-<suffix>.exe`.
pub fn installer_file_name(version: &str, suffix: &str) -> (r: String)
    ensures
        r@ == "maxalert-update-"@ + version@ + "-"@ + suffix@ + ".exe"@,
{
    let mut v = chars_of("maxalert-update-");
    push_str(&mut v, version);
    push_str(&mut v, "-");
    push_str(&mut v, suffix);
    push_str(&mut v, ".exe");
    string_from_chars(&v)
}


// ---------------------------------------------------------------------------
// One silent update, step by step
// ---------------------------------------------------------------------------

/// How far a silent update has come.
pub enum UpdateStage {
    /// Nothing fetched yet.
    Start,
    /// The manifest's text was fetched (nothing when the request failed).
    Manifest(Option<String>),
    /// The installer of this plan was downloaded (nothing when the download failed).
    Installer(UpdatePlan, Option<Vec<u8>>),
}

/// What the update does next.
pub enum UpdateAction {
    /// Fetch the manifest.
    FetchManifest,
    /// Download the installer of this plan.
    Download(UpdatePlan),
    /// Save and run the installer of this plan.
    Install(UpdatePlan),
    /// A siren sounds: give up for now and try again soon.
    Postpone,
    /// Nothing to do, or something failed: wait for the usual interval.
    Stop,
}

/// The next step of a silent update from `manifest_url`, the running version being
/// `current` and `siren` saying whether a siren sounds now. The update never restarts the
/// application over a sounding siren: it waits before fetching anything and again before
/// running the installer.
pub open spec fn update_step_ok(
    manifest_url: Seq<char>,
    current: Seq<char>,
    stage: UpdateStage,
    siren: bool,
    a: UpdateAction,
) -> bool {
    match stage {
        UpdateStage::Start => if !update_url_ok(manifest_url) {
            a is Stop
        } else if siren {
            a is Postpone
        } else {
            a is FetchManifest
        },
        UpdateStage::Manifest(None) => a is Stop,
        UpdateStage::Manifest(Some(text)) => match update_plan_of(manifest_url, text@, current) {
            None => a is Stop,
            Some(plan) => a matches UpdateAction::Download(p) && p.texts() == plan,
        },
        UpdateStage::Installer(_, None) => a is Stop,
        UpdateStage::Installer(p, Some(bytes)) => if !download_ok(bytes@, p.sha512_b64@) {
            a is Stop
        } else if siren {
            a is Postpone
        } else {
            a matches UpdateAction::Install(q) && q == p
        },
    }
}

pub fn silent_update_step(manifest_url: &str, current: &str, stage: &UpdateStage, siren: bool) -> (a: UpdateAction)
    ensures
        update_step_ok(manifest_url@, current@, *stage, siren, a),
{
    match stage {
        UpdateStage::Start => if !update_url_allowed(manifest_url) {
            UpdateAction::Stop
        } else if siren {
            UpdateAction::Postpone
        } else {
            UpdateAction::FetchManifest
        },
        UpdateStage::Manifest(None) => UpdateAction::Stop,
        UpdateStage::Manifest(Some(text)) => match plan_update(manifest_url, text.as_str(), current) {
            None => UpdateAction::Stop,
            Some(p) => UpdateAction::Download(p),
        },
        UpdateStage::Installer(_, None) => UpdateAction::Stop,
        UpdateStage::Installer(p, Some(bytes)) => if !installer_matches(bytes.as_slice(), p.sha512_b64.as_str()) {
            UpdateAction::Stop
        } else if siren {
            UpdateAction::Postpone
        } else {
            UpdateAction::Install(p.clone())
        },
    }
}

/// An installer runs only after a run that found no siren before fetching the manifest,
/// a plan for that manifest, an installer that matches the plan's digest, and no siren
/// before running it; and the update gives way (is postponed) exactly when a siren sounds
/// at a step that asks.
pub proof fn lemma_install_only_when_quiet(
    url: Seq<char>,
    current: Seq<char>,
    s1: bool,
    text: String,
    plan: UpdatePlan,
    bytes: Vec<u8>,
    s2: bool,
    a1: UpdateAction,
    a2: UpdateAction,
    a3: UpdateAction,
)
    requires
        update_step_ok(url, current, UpdateStage::Start, s1, a1),
        a1 is FetchManifest,
        update_step_ok(url, current, UpdateStage::Manifest(Some(text)), s1, a2),
        a2 matches UpdateAction::Download(p) && p == plan,
        update_step_ok(url, current, UpdateStage::Installer(plan, Some(bytes)), s2, a3),
    ensures
        a3 is Install ==> !s1 && !s2 && update_plan_of(url, text@, current) == Some(plan.texts())
            && download_ok(bytes@, plan.sha512_b64@),
        a3 is Postpone <==> s2 && download_ok(bytes@, plan.sha512_b64@),
        !s1,
{
}

/// At the start, the update is postponed exactly when its address is allowed and a siren
/// sounds.
pub proof fn lemma_start_postponed_on_siren(url: Seq<char>, current: Seq<char>, siren: bool, a: UpdateAction)
    requires
        update_step_ok(url, current, UpdateStage::Start, siren, a),
    ensures
        a is Postpone <==> update_url_ok(url) && siren,
        a is FetchManifest ==> !siren,
{
}

} // verus!
