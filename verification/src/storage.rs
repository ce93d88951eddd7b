use vstd::prelude::*;
use crate::errors::{AppError, error_message};
use crate::numbers::str_equal;

verus! {

/// The storage back ends that are built in.
#[derive(Debug, Clone, Copy, PartialEq, Eq, Structural)]
pub enum StorageKind {
    Local,
}

/// The back end that a configured name selects, if any: `local`, or no name, selects the
/// local disk.
pub open spec fn select_storage_spec(name: Seq<char>) -> Option<StorageKind> {
    if name == "local"@ || name == ""@ {
        Some(StorageKind::Local)
    } else {
        None
    }
}

/// The storage back end that a configured name selects: `local`, or no name, selects the
/// local disk; any other name is refused.
pub fn select_storage(name: &str) -> (r: Result<StorageKind, AppError>)
    ensures
        (name@ == "local"@ || name@ == ""@) ==> r == Ok::<StorageKind, AppError>(StorageKind::Local),
        !(name@ == "local"@ || name@ == ""@) ==> r is Err && r->Err_0 is Internal && error_message(r->Err_0)
            == "Provedor de storage '"@ + name@ + "' desconhecido ou não implementado."@,
{
    if str_equal(name, "local") || str_equal(name, "") {
        Ok(StorageKind::Local)
    } else {
        Err(
            AppError::Internal(
                crate::query_parser::join3("Provedor de storage '", name, "' desconhecido ou não implementado."),
            ),
        )
    }
}

/// A place where uploaded files are kept. An implementation stores `data` under a name
/// made from `file_name` and returns the address it is served at.
pub trait StorageService {
    fn upload(&self, file_name: &str, data: &[u8]) -> Result<String, AppError>;
}

/// The storage back end the service was started with.
#[derive(Debug, Clone, Copy)]
pub struct StorageProvider {
    pub kind: StorageKind,
}

/// Where the storage back end is kept once chosen: empty until the first successful
/// start, and never replaced afterwards.
#[derive(Debug)]
pub struct StorageSlot {
    provider: Option<StorageProvider>,
}

impl View for StorageSlot {
    type V = Option<StorageKind>;

    closed spec fn view(&self) -> Option<StorageKind> {
        match self.provider {
            Some(p) => Some(p.kind),
            None => None,
        }
    }
}

impl StorageSlot {
    /// A slot with no back end chosen yet.
    pub fn new() -> (r: StorageSlot)
        ensures
            r@ is None,
    {
        StorageSlot { provider: None }
    }

    /// Whether a back end has been chosen.
    pub fn is_initialized(&self) -> (r: bool)
        ensures
            r == self@ is Some,
    {
        self.provider.is_some()
    }
}

/// The chosen back end after a start with `provider_name`: a known name fills an empty
/// slot; anything else leaves the slot as it was.
pub open spec fn slot_after_init(slot: Option<StorageKind>, provider_name: Seq<char>) -> Option<StorageKind> {
    match select_storage_spec(provider_name) {
        Some(kind) => match slot {
            Some(k) => Some(k),
            None => Some(kind),
        },
        None => slot,
    }
}

/// The first successful start decides the back end: no later start, with any name,
/// replaces it.
pub proof fn law_first_choice_stays(slot: Option<StorageKind>, first: Seq<char>, later: Seq<char>)
    requires
        select_storage_spec(first) is Some,
    ensures
        slot_after_init(slot_after_init(slot, first), later) == slot_after_init(slot, first),
        slot_after_init(slot, first) is Some,
{
}

impl StorageProvider {
    /// Chooses the back end named `provider_name`. An unknown name is refused and the slot
    /// is left as it was; a known name fills an empty slot, and leaves a filled one as it
    /// was (the first choice stays).
    pub fn init(slot: &mut StorageSlot, provider_name: &str) -> (r: Result<(), AppError>)
        ensures
            final(slot)@ == slot_after_init(old(slot)@, provider_name@),
            select_storage_spec(provider_name@) is Some ==> r is Ok,
            select_storage_spec(provider_name@) is None ==> r is Err && r->Err_0 is Internal && error_message(
                r->Err_0,
            ) == "Provedor de storage '"@ + provider_name@ + "' desconhecido ou não implementado."@,
    {
        match select_storage(provider_name) {
            Ok(kind) => {
                if slot.provider.is_none() {
                    slot.provider = Some(StorageProvider { kind });
                }
                Ok(())
            },
            Err(e) => Err(e),
        }
    }

    /// The chosen back end; one must have been chosen.
    pub fn get(slot: &StorageSlot) -> (r: &StorageProvider)
        requires
            slot@ is Some,
        ensures
            Some(r.kind) == slot@,
    {
        slot.provider.as_ref().unwrap()
    }
}

/// The service that keeps uploads on the local disk, under `uploads`.
#[derive(Debug, Clone, Copy)]
pub struct LocalStorageService;

impl LocalStorageService {
    /// Where an upload is written, and the address it is served at: the file is stored as
    /// `uploads/<id>_<name>` and served as `/uploads/<id>_<name>`.
    pub fn upload_target(unique_id: &str, file_name: &str) -> (r: (String, String))
        ensures
            r.0@ == "uploads/"@ + unique_id@ + "_"@ + file_name@,
            r.1@ == "/uploads/"@ + unique_id@ + "_"@ + file_name@,
    {
        let mut path = String::from_str("uploads/");
        path.append(unique_id);
        path.append("_");
        path.append(file_name);
        let mut url = String::from_str("/uploads/");
        url.append(unique_id);
        url.append("_");
        url.append(file_name);
        (path, url)
    }
}

/// Calls `uuid::Uuid::new_v4` and writes the identifier out with `to_string`. It is drawn
/// at random, so nothing is said of which one comes back; what the source shows of its
/// text is stated: the hyphenated lower-case form, 36 characters with `-` at positions 8,
/// 13, 18 and 23.
#[verifier::external_body]
pub(crate) fn new_unique_id() -> (r: String)
    ensures
        r@.len() == 36 && r@[8] == '-' && r@[13] == '-' && r@[18] == '-' && r@[23] == '-',
{
    ::uuid::Uuid::new_v4().to_string()
}

/// Where a new upload goes: a fresh identifier, the file it is written to and the
/// address it is served at.
#[derive(Debug, Clone)]
pub struct UploadTarget {
    pub id: String,
    pub path: String,
    pub url: String,
}

impl LocalStorageService {
    /// A target for an upload of `file_name` under a fresh random identifier.
    pub fn new_upload_target(file_name: &str) -> (r: UploadTarget)
        ensures
            r.id@.len() == 36 && r.id@[8] == '-' && r.id@[13] == '-' && r.id@[18] == '-' && r.id@[23] == '-',
            r.path@ == "uploads/"@ + r.id@ + "_"@ + file_name@,
            r.url@ == "/uploads/"@ + r.id@ + "_"@ + file_name@,
    {
        let id = new_unique_id();
        let (path, url) = LocalStorageService::upload_target(id.as_str(), file_name);
        UploadTarget { id, path, url }
    }
}

/// The message when the storage directory cannot be created.
pub fn create_dir_error(detail: &str) -> (r: AppError)
    ensures
        r is Internal && error_message(r) == "Failed to create storage directory: "@ + detail@,
{
    let mut s = String::from_str("Failed to create storage directory: ");
    s.append(detail);
    AppError::Internal(s)
}

/// The message when an upload cannot be written.
pub fn write_file_error(detail: &str) -> (r: AppError)
    ensures
        r is Internal && error_message(r) == "Failed to write file to local storage: "@ + detail@,
{
    let mut s = String::from_str("Failed to write file to local storage: ");
    s.append(detail);
    AppError::Internal(s)
}

} // verus!
