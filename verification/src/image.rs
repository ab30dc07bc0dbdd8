//! The commands on images.

use vstd::prelude::*;

use crate::api_client::{ApiClient, ApiError, HttpRequest};
#[allow(unused_imports)]
use crate::api_client::{asks, DEFAULT_REQUEST_TIMEOUT_SECS};
use crate::text::{decimal_of, lines_of, trimmed};
#[allow(unused_imports)]
use crate::text::{decimal, lines, trim, views};

verus! {

/// A command on images.
#[derive(Debug)]
pub enum Command {
    /// List the images.
    List { json: bool },
    /// Resolve a reference to a container image without downloading it.
    Inspect { reference: String, json: bool },
    /// Have a container image imported in the background.
    Import { reference: String, json: bool },
    /// Show how far an import is.
    ImportStatus { alias: String, json: bool },
}

/// What a command can fail at.
#[derive(Debug)]
pub enum Error {
    /// The API could not be asked, or refused.
    Api(ApiError),
    /// An import failed.
    ImportFailed { alias: String, detail: String },
}

impl From<ApiError> for Error {
    fn from(value: ApiError) -> (r: Self) {
        Error::Api(value)
    }
}

impl vstd::std_specs::convert::FromSpecImpl<ApiError> for Error {
    open spec fn obeys_from_spec() -> bool {
        true
    }

    open spec fn from_spec(value: ApiError) -> Self {
        Error::Api(value)
    }
}

impl Error {
    /// The error in one line.
    pub fn message(&self) -> (r: String)
        ensures
            r@ == match self {
                Error::Api(e) => e@.message(),
                Error::ImportFailed { alias, detail } => "OCI import "@ + alias@ + " failed: "@
                    + detail@,
            },
    {
        match self {
            Error::Api(e) => e.message(),
            Error::ImportFailed { alias, detail } => "OCI import ".to_owned().concat(
                alias,
            ).concat(" failed: ").concat(detail),
        }
    }
}

/// What a command asks of the API.
#[derive(Debug)]
pub struct ImageRequest {
    pub request: HttpRequest,
    /// The reference that goes into the query.
    pub query_reference: Option<String>,
    /// The reference that goes into the body.
    pub body_reference: Option<String>,
    /// Whether the answer is shown as JSON.
    pub json: bool,
}

/// What a command asks of the API.
pub fn run(client: &ApiClient, command: Command) -> (r: ImageRequest)
    ensures
        match command {
            Command::List { json } => {
                &&& asks(
                    r.request,
                    "GET"@,
                    client.base(),
                    "/api/images"@,
                    DEFAULT_REQUEST_TIMEOUT_SECS,
                )
                &&& r.query_reference is None
                &&& r.body_reference is None
                &&& r.json == json
            },
            Command::Inspect { reference, json } => {
                &&& asks(
                    r.request,
                    "GET"@,
                    client.base(),
                    "/api/oci/inspect"@,
                    DEFAULT_REQUEST_TIMEOUT_SECS,
                )
                &&& r.query_reference == Some(reference)
                &&& r.body_reference is None
                &&& r.json == json
            },
            Command::Import { reference, json } => {
                &&& asks(
                    r.request,
                    "POST"@,
                    client.base(),
                    "/api/oci/import"@,
                    DEFAULT_REQUEST_TIMEOUT_SECS,
                )
                &&& r.query_reference is None
                &&& r.body_reference == Some(reference)
                &&& r.json == json
            },
            Command::ImportStatus { alias, json } => {
                &&& asks(
                    r.request,
                    "GET"@,
                    client.base(),
                    "/api/oci/import/"@ + alias@,
                    DEFAULT_REQUEST_TIMEOUT_SECS,
                )
                &&& r.query_reference is None
                &&& r.body_reference is None
                &&& r.json == json
            },
        },
{
    match command {
        Command::List { json } => ImageRequest {
            request: client.get("/api/images"),
            query_reference: None,
            body_reference: None,
            json,
        },
        Command::Inspect { reference, json } => ImageRequest {
            request: client.get_query("/api/oci/inspect"),
            query_reference: Some(reference),
            body_reference: None,
            json,
        },
        Command::Import { reference, json } => ImageRequest {
            request: client.post("/api/oci/import"),
            query_reference: None,
            body_reference: Some(reference),
            json,
        },
        Command::ImportStatus { alias, json } => ImageRequest {
            request: client.get(&"/api/oci/import/".to_owned().concat(&alias)),
            query_reference: None,
            body_reference: None,
            json,
        },
    }
}

/// An image as the list shows it.
#[derive(Debug)]
pub struct ImageResponse {
    pub alias: String,
    pub version: String,
    pub min_disk_gb: u32,
    pub installed: bool,
    pub package_url: Option<String>,
    pub package_staged: bool,
}

/// Yes or no.
pub open spec fn yes_no(yes: bool) -> Seq<char> {
    if yes {
        "yes"@
    } else {
        "no"@
    }
}

fn yes_or_no(yes: bool) -> (r: &'static str)
    ensures
        r@ == yes_no(yes),
{
    if yes {
        "yes"
    } else {
        "no"
    }
}

/// The line of an image.
pub open spec fn image_line(image: ImageResponse) -> Seq<char> {
    image.alias@ + "\t"@ + image.version@ + "\t"@ + yes_no(image.installed) + "\t"@ + decimal(
        image.min_disk_gb as nat,
    ) + "\t"@ + (if image.package_staged {
        "staged"@
    } else if image.package_url is Some {
        "available"@
    } else {
        "-"@
    }) + "\n"@
}

/// A heading and the lines of some images.
pub open spec fn image_list(images: Seq<ImageResponse>) -> Seq<char>
    decreases images.len(),
{
    if images.len() == 0 {
        "ALIAS\tVERSION\tINSTALLED\tMIN_DISK_GIB\tPACKAGE\n"@
    } else {
        image_list(images.drop_last()) + image_line(images.last())
    }
}

/// A heading and the lines of some images.
pub fn format_list(images: &[ImageResponse]) -> (r: String)
    ensures
        r@ == image_list(images@),
{
    let mut output = "ALIAS\tVERSION\tINSTALLED\tMIN_DISK_GIB\tPACKAGE\n".to_owned();
    let mut i: usize = 0;
    while i < images.len()
        invariant
            i <= images@.len(),
            output@ == image_list(images@.take(i as int)),
        decreases images@.len() - i,
    {
        let image = &images[i];
        assert(images@.take(i + 1).drop_last() =~= images@.take(i as int));
        assert(images@.take(i + 1).last() == *image);
        let package = if image.package_staged {
            "staged"
        } else if image.package_url.is_some() {
            "available"
        } else {
            "-"
        };
        let line = image.alias.clone().concat("\t").concat(&image.version).concat("\t").concat(
            yes_or_no(image.installed),
        ).concat("\t").concat(&decimal_of(image.min_disk_gb as u64)).concat("\t").concat(
            package,
        ).concat("\n");
        output = output.concat(&line);
        i += 1;
    }
    assert(images@.take(i as int) =~= images@);
    output
}

/// What a reference to a container image resolves to.
#[derive(Debug)]
pub struct OciInspectResponse {
    pub registry: String,
    pub repository: String,
    pub version: String,
    pub immutable: bool,
    pub digest: String,
    pub architecture: String,
    pub single_platform: bool,
    pub alias: String,
}

/// What a reference to a container image resolves to, for a reader.
pub fn format_inspect(inspect: &OciInspectResponse) -> (r: String)
    ensures
        r@ == "OCI IMAGE "@ + inspect.alias@ + "\n  registry:        "@ + inspect.registry@
            + "\n  repository:      "@ + inspect.repository@ + "\n  version:         "@
            + inspect.version@ + "\n  digest:          "@ + inspect.digest@
            + "\n  architecture:    "@ + inspect.architecture@ + "\n  immutable:       "@ + yes_no(
            inspect.immutable,
        ) + "\n  single platform: "@ + yes_no(inspect.single_platform) + "\n"@,
{
    "OCI IMAGE ".to_owned().concat(&inspect.alias).concat("\n  registry:        ").concat(
        &inspect.registry,
    ).concat("\n  repository:      ").concat(&inspect.repository).concat(
        "\n  version:         ",
    ).concat(&inspect.version).concat("\n  digest:          ").concat(&inspect.digest).concat(
        "\n  architecture:    ",
    ).concat(&inspect.architecture).concat("\n  immutable:       ").concat(
        yes_or_no(inspect.immutable),
    ).concat("\n  single platform: ").concat(yes_or_no(inspect.single_platform)).concat("\n")
}

/// How far an import is.
#[derive(Debug, Clone, Copy, PartialEq, Eq, Structural)]
pub enum ImageInstallStatus {
    Idle,
    Running,
    Succeeded,
    Failed,
}

impl ImageInstallStatus {
    /// The status in one word.
    pub open spec fn name(self) -> Seq<char> {
        match self {
            ImageInstallStatus::Idle => "idle"@,
            ImageInstallStatus::Running => "running"@,
            ImageInstallStatus::Succeeded => "succeeded"@,
            ImageInstallStatus::Failed => "failed"@,
        }
    }
}

/// An import as it is now.
#[derive(Debug)]
pub struct ImageInstallResponse {
    pub alias: String,
    pub status: ImageInstallStatus,
    pub log: String,
}

/// The status in one word.
pub fn install_status(status: ImageInstallStatus) -> (r: &'static str)
    ensures
        r@ == status.name(),
{
    match status {
        ImageInstallStatus::Idle => "idle",
        ImageInstallStatus::Running => "running",
        ImageInstallStatus::Succeeded => "succeeded",
        ImageInstallStatus::Failed => "failed",
    }
}

/// Lines with some space before each.
pub open spec fn indented(all: Seq<Seq<char>>) -> Seq<char>
    decreases all.len(),
{
    if all.len() == 0 {
        Seq::empty()
    } else {
        indented(all.drop_last()) + "    "@ + all.last() + "\n"@
    }
}

/// An import as it is now, for a reader: its log where there is one, and while it runs, how
/// to ask again.
pub open spec fn import_text(snapshot: ImageInstallResponse) -> Seq<char> {
    "OCI import "@ + snapshot.alias@ + ": "@ + snapshot.status.name() + "\n"@ + (if trim(
        snapshot.log@,
    ).len() == 0 {
        Seq::empty()
    } else {
        "  log:\n"@ + indented(lines(snapshot.log@))
    }) + (if snapshot.status is Running {
        "  poll: firecrab image import-status "@ + snapshot.alias@ + "\n"@
    } else {
        Seq::empty()
    })
}

/// An import as it is now, for a reader.
pub fn format_import_snapshot(snapshot: &ImageInstallResponse) -> (r: String)
    ensures
        r@ == import_text(*snapshot),
{
    let mut output = "OCI import ".to_owned().concat(&snapshot.alias).concat(": ").concat(
        install_status(snapshot.status),
    ).concat("\n");
    let ghost head = output@;
    let mut log = String::new();
    assert(log@ =~= Seq::<char>::empty());
    if !trimmed(&snapshot.log).as_str().is_empty() {
        let all = lines_of(&snapshot.log);
        log = "  log:\n".to_owned();
        let ghost texts = views(all@);
        let mut i: usize = 0;
        assert("  log:\n"@ + indented(texts.take(0)) =~= "  log:\n"@);
        while i < all.len()
            invariant
                i <= all@.len(),
                texts == views(all@),
                log@ == "  log:\n"@ + indented(texts.take(i as int)),
            decreases all@.len() - i,
        {
            assert(texts.take(i + 1).drop_last() =~= texts.take(i as int));
            assert(texts.take(i + 1).last() == all@[i as int]@);
            log = log.concat("    ").concat(&all[i]).concat("\n");
            assert(log@ =~= "  log:\n"@ + indented(texts.take(i + 1)));
            i += 1;
        }
        assert(texts.take(i as int) =~= texts);
    }
    output = output.concat(&log);
    if snapshot.status == ImageInstallStatus::Running {
        let poll = "  poll: firecrab image import-status ".to_owned().concat(
            &snapshot.alias,
        ).concat("\n");
        output.concat(&poll)
    } else {
        assert(output@ + Seq::<char>::empty() =~= output@);
        output
    }
}

/// The last line that is not blank.
pub open spec fn last_word(all: Seq<Seq<char>>) -> Seq<char>
    decreases all.len(),
{
    if all.len() == 0 {
        "no failure detail returned"@
    } else if trim(all.last()).len() > 0 {
        trim(all.last())
    } else {
        last_word(all.drop_last())
    }
}

/// Refuses an import that failed, with the last line of its log that is not blank.
pub fn ensure_import_succeeded_or_active(snapshot: &ImageInstallResponse) -> (r: Result<(), Error>)
    ensures
        match r {
            Ok(_) => !(snapshot.status is Failed),
            Err(Error::ImportFailed { alias, detail }) => snapshot.status is Failed && alias@
                == snapshot.alias@ && detail@ == last_word(lines(snapshot.log@)),
            Err(Error::Api(_)) => false,
        },
{
    if snapshot.status != ImageInstallStatus::Failed {
        return Ok(());
    }
    let all = lines_of(&snapshot.log);
    let ghost texts = views(all@);
    let mut i: usize = all.len();
    let mut detail = "no failure detail returned".to_owned();
    let mut looking: bool = true;
    assert(texts.take(i as int) =~= texts);
    while looking && i > 0
        invariant
            i <= all@.len(),
            texts == views(all@),
            looking ==> last_word(texts.take(i as int)) == last_word(texts) && detail@
                == "no failure detail returned"@,
            !looking ==> detail@ == last_word(texts),
        decreases i,
    {
        assert(texts.take(i as int).drop_last() =~= texts.take(i - 1));
        assert(texts.take(i as int).last() == all@[i - 1]@);
        let line = trimmed(&all[i - 1]);
        if !line.as_str().is_empty() {
            detail = line;
            looking = false;
        }
        i = i - 1;
    }
    if looking {
        assert(texts.take(0).len() == 0);
    }
    Err(Error::ImportFailed { alias: snapshot.alias.clone(), detail })
}

} // verus!
