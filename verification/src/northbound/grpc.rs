//! Requests of northbound clients.

use vstd::prelude::*;
use vstd::string::{StrSliceExecFns, StringExecFns};

use crate::ip::SocketAddr;
use crate::text::{opt_text, owned, texts};

verus! {

// ===== status =====

#[derive(Clone, Copy, Debug, PartialEq, Eq, Structural)]
pub enum Code {
    InvalidArgument,
    NotFound,
    ResourceExhausted,
    Internal,
    Unauthenticated,
}

/// What a refused request is answered.
#[derive(Debug)]
pub struct Status {
    pub code: Code,
    pub message: String,
}

pub struct StatusView {
    pub code: Code,
    pub message: Seq<char>,
}

impl View for Status {
    type V = StatusView;

    open spec fn view(&self) -> StatusView {
        StatusView { code: self.code, message: self.message@ }
    }
}

/// The status with a code and a text.
pub open spec fn refusal(code: Code, message: Seq<char>) -> StatusView {
    StatusView { code, message }
}

fn refuse(code: Code, message: &str) -> (r: Status)
    ensures
        r@ == refusal(code, message@),
{
    Status { code, message: owned(message) }
}

/// What kind of error the northbound answered a request with.
#[derive(Clone, Copy, Debug, PartialEq, Eq, Structural)]
pub enum ErrorKind {
    YangInvalidPath,
    YangInvalidData,
    YangInternal,
    TransactionValidation,
    TransactionPreparation,
    TransactionIdNotFound,
    Get,
}

impl ErrorKind {
    /// The code that an error is reported with.
    pub open spec fn code(self) -> Code {
        match self {
            ErrorKind::YangInvalidPath | ErrorKind::YangInvalidData | ErrorKind::TransactionValidation
            | ErrorKind::Get => Code::InvalidArgument,
            ErrorKind::YangInternal => Code::Internal,
            ErrorKind::TransactionPreparation => Code::ResourceExhausted,
            ErrorKind::TransactionIdNotFound => Code::NotFound,
        }
    }
}

impl Status {
    /// The status that reports an error of the northbound.
    pub fn from_error(kind: ErrorKind, text: String) -> (r: Status)
        ensures
            r@ == refusal(kind.code(), text@),
    {
        let code = match kind {
            ErrorKind::YangInvalidPath | ErrorKind::YangInvalidData => Code::InvalidArgument,
            ErrorKind::YangInternal => Code::Internal,
            ErrorKind::TransactionValidation => Code::InvalidArgument,
            ErrorKind::TransactionPreparation => Code::ResourceExhausted,
            ErrorKind::TransactionIdNotFound => Code::NotFound,
            ErrorKind::Get => Code::InvalidArgument,
        };
        Status { code, message: text }
    }
}

// ===== listeners =====

/// Where a server accepts connections.
#[derive(Debug)]
pub enum Listener {
    Tcp(SocketAddr),
    /// The path of a socket.
    Unix(String),
}

/// Whether an address is the path of a Unix socket.
pub open spec fn is_socket_path(address: Seq<char>) -> bool {
    address.len() > 0 && address[0] == '/'
}

/// Returns true if an address is the path of a Unix socket, which starts with a
/// slash.
pub fn names_unix_socket(address: &String) -> (r: bool)
    ensures
        r == is_socket_path(address@),
{
    address.as_str().unicode_len() > 0 && address.as_str().get_char(0) == '/'
}

/// Selects the listener for an address, given what the address is parsed to.
///
/// An address starting with a slash is taken as the path of a Unix socket, which
/// is protected by its file permissions. Fails with a text if the address is
/// neither that nor a socket address.
pub fn listener_for(
    name: &String,
    address: &String,
    parsed: Result<SocketAddr,
    String>,
) -> (r: Result<Listener, String>)
    ensures
        match r {
            Ok(Listener::Unix(path)) => is_socket_path(address@) && path@ == address@,
            Ok(Listener::Tcp(addr)) => !is_socket_path(address@) && parsed == Ok::<SocketAddr, String>(addr),
            Err(text) => !is_socket_path(address@) && match parsed {
                Ok(_) => false,
                Err(error) => text@ == "failed to parse the "@ + name@ + " server address: "@ + error@,
            },
        },
{
    if names_unix_socket(address) {
        return Ok(Listener::Unix(address.clone()));
    }
    match parsed {
        Ok(addr) => Ok(Listener::Tcp(addr)),
        Err(error) => Err(
            owned("failed to parse the ").concat(name.as_str()).concat(" server address: ").concat(error.as_str()),
        ),
    }
}

impl Listener {
    /// Whether the server needs TLS. A TCP address does, as credentials would
    /// otherwise cross the network in the clear.
    pub fn needs_tls(&self) -> (r: bool)
        ensures
            r == (self is Tcp),
    {
        match self {
            Listener::Tcp(_) => true,
            Listener::Unix(_) => false,
        }
    }
}

/// The sources of an error, each after a colon.
pub open spec fn sources_text(sources: Seq<String>) -> Seq<char>
    decreases sources.len(),
{
    if sources.len() == 0 {
        Seq::empty()
    } else {
        sources_text(sources.drop_last()) + ": "@ + sources.last()@
    }
}

/// What is printed when a service could not be started, for an error and its
/// sources.
pub fn start_failure(name: &String, address: &String, error: &String, sources: &Vec<String>) -> (r: String)
    ensures
        r@ == "failed to start the "@ + name@ + " service on "@ + address@ + ": "@ + error@ + sources_text(sources@),
{
    let mut message = owned("failed to start the ").concat(name.as_str()).concat(" service on ").concat(
        address.as_str(),
    ).concat(": ").concat(error.as_str());
    let ghost first = message@;
    let mut i: usize = 0;
    assert(first + sources_text(sources@.take(0)) =~= first);
    while i < sources.len()
        invariant
            i <= sources@.len(),
            message@ == first + sources_text(sources@.take(i as int)),
        decreases sources@.len() - i,
    {
        message.append(": ");
        message.append(sources[i].as_str());
        proof {
            let next = sources@.take(i + 1);
            assert(next.drop_last() =~= sources@.take(i as int));
            assert(message@ =~= first + sources_text(next));
        }
        i = i + 1;
    }
    assert(sources@.take(i as int) =~= sources@);
    message
}

// ===== authentication =====

#[derive(Debug)]
pub struct Credentials {
    pub username: String,
    pub password: String,
}

/// The credentials that a request carries, given its fields as far as they are
/// text.
pub fn credentials(username: Option<String>, password: Option<String>) -> (r: Option<Credentials>)
    ensures
        match r {
            Some(c) => username == Some(c.username) && password == Some(c.password),
            None => username is None || password is None,
        },
{
    match (username, password) {
        (Some(username), Some(password)) => Some(Credentials { username, password }),
        _ => None,
    }
}

/// Authenticates northbound clients against the configured local users.
#[derive(Clone, Copy, Debug, PartialEq, Eq, Structural)]
pub struct Authenticator {
    pub unix: bool,
}

/// What becomes of the authentication of a request.
#[derive(Debug)]
pub enum AuthStep {
    Accept,
    /// The user is to be looked up, and the password verified.
    Verify(Credentials),
    Reject(Status),
}

/// Why a request is refused, if it is: given whether it came over a Unix socket,
/// whether it carries credentials, and, for a configured user, whether the
/// password is right.
pub open spec fn refused(unix: bool, credentials: bool, user: Option<bool>) -> Option<Seq<char>> {
    if unix || (credentials && user == Some(true)) {
        None
    } else if !credentials {
        Some("missing credentials"@)
    } else {
        Some("invalid credentials"@)
    }
}

impl Authenticator {
    pub fn new(listener: &Listener) -> (r: Authenticator)
        ensures
            r.unix == (listener is Unix),
    {
        let unix = match listener {
            Listener::Unix(_) => true,
            Listener::Tcp(_) => false,
        };
        Authenticator { unix }
    }

    /// Decides about a request from the credentials that it carries.
    ///
    /// A socket's file permissions already decide who may connect, and the
    /// peer's identity comes from the kernel, so no password is asked for there.
    pub fn authenticate(&self, credentials: Option<Credentials>) -> (r: AuthStep)
        ensures
            match r {
                AuthStep::Accept => forall|user: Option<bool>|
                    (#[trigger] refused(self.unix, credentials is Some, user)) is None,
                AuthStep::Reject(s) => s.code == Code::Unauthenticated && forall|user: Option<bool>|
                    (#[trigger] refused(self.unix, credentials is Some, user)) == Some(s.message@),
                AuthStep::Verify(c) => !self.unix && credentials == Some(c),
            },
    {
        if self.unix {
            return AuthStep::Accept;
        }
        match credentials {
            Some(credentials) => AuthStep::Verify(credentials),
            None => AuthStep::Reject(refuse(Code::Unauthenticated, "missing credentials")),
        }
    }
}

/// Decides about a request once its credentials were verified: for a configured
/// user, whether the password is right.
///
/// The same error covers an unknown user and a wrong password, so that valid
/// user names can't be harvested.
pub fn verified(user: Option<bool>) -> (r: Result<(), Status>)
    ensures
        match r {
            Ok(_) => refused(false, true, user) is None,
            Err(s) => s.code == Code::Unauthenticated && refused(false, true, user) == Some(s.message@),
        },
{
    match user {
        Some(true) => Ok(()),
        _ => Err(refuse(Code::Unauthenticated, "invalid credentials")),
    }
}

// ===== data =====

/// Encoding of data in requests and responses.
#[derive(Clone, Copy, Debug, PartialEq, Eq, Structural)]
pub enum Encoding {
    Json,
    Xml,
    Lyb,
}

/// Format of data trees.
#[derive(Clone, Copy, Debug, PartialEq, Eq, Structural)]
pub enum DataFormat {
    JSON,
    XML,
    LYB,
}

impl Encoding {
    pub open spec fn spec_format(self) -> DataFormat {
        match self {
            Encoding::Json => DataFormat::JSON,
            Encoding::Xml => DataFormat::XML,
            Encoding::Lyb => DataFormat::LYB,
        }
    }

    pub fn format(self) -> (r: DataFormat)
        ensures
            r == self.spec_format(),
    {
        match self {
            Encoding::Json => DataFormat::JSON,
            Encoding::Xml => DataFormat::XML,
            Encoding::Lyb => DataFormat::LYB,
        }
    }
}

impl DataFormat {
    pub open spec fn spec_encoding(self) -> Encoding {
        match self {
            DataFormat::JSON => Encoding::Json,
            DataFormat::XML => Encoding::Xml,
            DataFormat::LYB => Encoding::Lyb,
        }
    }

    pub fn encoding(self) -> (r: Encoding)
        ensures
            r == self.spec_encoding(),
    {
        match self {
            DataFormat::JSON => Encoding::Json,
            DataFormat::XML => Encoding::Xml,
            DataFormat::LYB => Encoding::Lyb,
        }
    }
}

/// An encoding as formats know it, and back.
pub proof fn encodings_match_formats(encoding: Encoding, format: DataFormat)
    ensures
        encoding.spec_format().spec_encoding() == encoding,
        format.spec_encoding().spec_format() == format,
{
}

/// Supported data encodings.
pub fn supported_encodings() -> (r: Vec<Encoding>)
    ensures
        r@ == seq![Encoding::Json, Encoding::Xml, Encoding::Lyb],
{
    let r: Vec<Encoding> = vec![Encoding::Json, Encoding::Xml, Encoding::Lyb];
    assert(r@ =~= seq![Encoding::Json, Encoding::Xml, Encoding::Lyb]);
    r
}

#[derive(Debug)]
pub enum Data {
    DataString(String),
    DataBytes(Vec<u8>),
}

/// Data of a request. An encoding that is not known is absent.
#[derive(Debug)]
pub struct DataTree {
    pub encoding: Option<Encoding>,
    pub data: Option<Data>,
}

/// What data of a request stands for.
#[derive(Clone, Copy, Debug, PartialEq, Eq, Structural)]
pub enum Content {
    /// A data tree.
    Tree,
    /// The difference between two data trees.
    Diff,
    /// An RPC or action.
    Rpc,
}

/// How data of a request is parsed.
#[derive(Debug)]
pub struct ParseRequest {
    pub content: Content,
    pub format: DataFormat,
    pub data: Data,
    /// Whether parsing leaves out validation.
    pub no_validation: bool,
    /// Whether state data is refused.
    pub no_state: bool,
    /// Whether only modules with data are validated.
    pub present: bool,
}

/// What is parsed of data of a request, and how.
pub open spec fn parse_requested(tree: DataTree, content: Content, r: Result<ParseRequest, Status>) -> bool {
    match (tree.encoding, tree.data) {
        (None, _) => r matches Err(s) && s@ == refusal(Code::InvalidArgument, "Invalid data encoding"@),
        (_, None) => r matches Err(s) && s@ == refusal(Code::InvalidArgument, "Missing 'data' field"@),
        (Some(encoding), Some(data)) => r == Ok::<ParseRequest, Status>(
            ParseRequest {
                content,
                format: encoding.spec_format(),
                data,
                no_validation: content == Content::Diff,
                no_state: content != Content::Rpc,
                present: content == Content::Diff,
            },
        ),
    }
}

fn parse_request(
    tree: DataTree,
    content: Content,
    no_validation: bool,
    no_state: bool,
    present: bool,
) -> (r: Result<ParseRequest, Status>)
    requires
        no_validation == (content == Content::Diff),
        no_state == (content != Content::Rpc),
        present == (content == Content::Diff),
    ensures
        parse_requested(tree, content, r),
{
    let encoding = match tree.encoding {
        Some(encoding) => encoding,
        None => {
            return Err(refuse(Code::InvalidArgument, "Invalid data encoding"));
        },
    };
    match tree.data {
        Some(data) => Ok(
            ParseRequest { content, format: encoding.format(), data, no_validation, no_state, present },
        ),
        None => Err(refuse(Code::InvalidArgument, "Missing 'data' field")),
    }
}

/// How a data tree is parsed.
pub fn data_tree_get(tree: DataTree) -> (r: Result<ParseRequest, Status>)
    ensures
        parse_requested(tree, Content::Tree, r),
{
    parse_request(tree, Content::Tree, false, true, false)
}

/// How the difference between two data trees is parsed.
pub fn data_diff_get(tree: DataTree) -> (r: Result<ParseRequest, Status>)
    ensures
        parse_requested(tree, Content::Diff, r),
{
    parse_request(tree, Content::Diff, true, true, true)
}

/// How an RPC or action is parsed.
pub fn rpc_get(tree: DataTree) -> (r: Result<ParseRequest, Status>)
    ensures
        parse_requested(tree, Content::Rpc, r),
{
    parse_request(tree, Content::Rpc, false, false, false)
}

/// The status for data that cannot be parsed.
pub fn parse_failure(error: String) -> (r: Status)
    ensures
        r@ == refusal(Code::InvalidArgument, error@),
{
    Status { code: Code::InvalidArgument, message: error }
}

/// Whether data of a format is printed as text rather than bytes.
pub fn prints_text(format: DataFormat) -> (r: bool)
    ensures
        r == (format != DataFormat::LYB),
{
    match format {
        DataFormat::JSON | DataFormat::XML => true,
        DataFormat::LYB => false,
    }
}

/// Data of a response, given what the data tree was printed to.
pub fn data_tree_init(encoding: Encoding, printed: Result<Data, String>) -> (r: Result<DataTree, Status>)
    ensures
        match printed {
            Ok(data) => r == Ok::<DataTree, Status>(DataTree { encoding: Some(encoding), data: Some(data) }),
            Err(error) => r matches Err(s) && s@ == refusal(Code::Internal, error@),
        },
{
    match printed {
        Ok(data) => Ok(DataTree { encoding: Some(encoding), data: Some(data) }),
        Err(error) => Err(Status { code: Code::Internal, message: error }),
    }
}

// ===== requests =====

/// A text that may be left out.
pub open spec fn present_text(s: Seq<char>) -> Option<Seq<char>> {
    if s.len() == 0 {
        None
    } else {
        Some(s)
    }
}

pub fn get_optional_string(data: String) -> (r: Option<String>)
    ensures
        opt_text(r) == present_text(data@),
{
    if data.as_str().unicode_len() == 0 {
        None
    } else {
        Some(data)
    }
}

/// The encoding that a request asks for, if it is known.
pub fn requested_encoding(encoding: Option<Encoding>) -> (r: Result<Encoding, Status>)
    ensures
        match encoding {
            Some(e) => r == Ok::<Encoding, Status>(e),
            None => r matches Err(s) && s@ == refusal(Code::InvalidArgument, "Invalid data encoding"@),
        },
{
    match encoding {
        Some(encoding) => Ok(encoding),
        None => Err(refuse(Code::InvalidArgument, "Invalid data encoding")),
    }
}

/// How the data of a response is printed.
#[derive(Clone, Copy, Debug, PartialEq, Eq, Structural)]
pub struct PrinterFlags {
    pub with_siblings: bool,
    /// Whether default values are printed.
    pub with_all_defaults: bool,
}

pub fn printer_flags(with_defaults: bool) -> (r: PrinterFlags)
    ensures
        r == (PrinterFlags { with_siblings: true, with_all_defaults: with_defaults }),
{
    PrinterFlags { with_siblings: true, with_all_defaults: with_defaults }
}

/// How the data of a response is encoded and printed.
#[derive(Clone, Copy, Debug, PartialEq, Eq, Structural)]
pub struct Printing {
    pub encoding: Encoding,
    pub flags: PrinterFlags,
}

/// How a request wants its data printed, or why it is refused.
pub open spec fn printing_requested(
    encoding: Option<Encoding>,
    with_defaults: bool,
    r: Result<Printing, Status>,
) -> bool {
    match encoding {
        Some(encoding) => r == Ok::<Printing, Status>(
            Printing {
                encoding,
                flags: PrinterFlags { with_siblings: true, with_all_defaults: with_defaults },
            },
        ),
        None => r matches Err(s) && s@ == refusal(Code::InvalidArgument, "Invalid data encoding"@),
    }
}

fn requested_printing(encoding: Option<Encoding>, with_defaults: bool) -> (r: Result<Printing, Status>)
    ensures
        printing_requested(encoding, with_defaults, r),
{
    match requested_encoding(encoding) {
        Ok(encoding) => Ok(Printing { encoding, flags: printer_flags(with_defaults) }),
        Err(s) => Err(s),
    }
}

/// How state data is printed. An encoding that is not known is absent, and the
/// request is refused before the data is fetched.
pub fn get_state(encoding: Option<Encoding>, with_defaults: bool) -> (r: Result<Printing, Status>)
    ensures
        printing_requested(encoding, with_defaults, r),
{
    requested_printing(encoding, with_defaults)
}

/// How configuration data is printed. An encoding that is not known is absent,
/// and the request is refused before the data is fetched.
pub fn get_config(encoding: Option<Encoding>, with_defaults: bool) -> (r: Result<Printing, Status>)
    ensures
        printing_requested(encoding, with_defaults, r),
{
    requested_printing(encoding, with_defaults)
}

/// How the configuration of a transaction is printed, once the transaction was
/// looked up. An encoding that is not known is absent.
pub fn get_transaction(
    found: Result<(), Status>,
    encoding: Option<Encoding>,
) -> (r: Result<Printing, Status>)
    ensures
        match found {
            Ok(_) => printing_requested(encoding, false, r),
            Err(s) => r == Err::<Printing, Status>(s),
        },
{
    match found {
        Ok(_) => requested_printing(encoding, false),
        Err(s) => Err(s),
    }
}

/// A subscription to notifications.
#[derive(Debug)]
pub struct Subscription {
    pub printing: Printing,
    /// The path to which the notifications are limited.
    pub path: Option<String>,
}

/// The subscription that a request asks for.
pub fn subscribe(encoding: Option<Encoding>, path: String) -> (r: Result<Subscription, Status>)
    ensures
        match r {
            Ok(sub) => printing_requested(encoding, false, Ok::<Printing, Status>(sub.printing)) && opt_text(
                sub.path,
            ) == present_text(path@),
            Err(s) => printing_requested(encoding, false, Err::<Printing, Status>(s)),
        },
{
    match requested_printing(encoding, false) {
        Ok(printing) => Ok(Subscription { printing, path: get_optional_string(path) }),
        Err(s) => Err(s),
    }
}

/// How a configuration is parsed that is to be validated.
pub fn validate(config: Option<DataTree>) -> (r: Result<ParseRequest, Status>)
    ensures
        match config {
            Some(tree) => parse_requested(tree, Content::Tree, r),
            None => r matches Err(s) && s@ == refusal(Code::InvalidArgument, "Missing 'config' field"@),
        },
{
    match config {
        Some(config) => data_tree_get(config),
        None => Err(refuse(Code::InvalidArgument, "Missing 'config' field")),
    }
}

#[derive(Clone, Copy, Debug, PartialEq, Eq, Structural)]
pub enum Operation {
    Merge,
    Replace,
    Change,
}

impl Operation {
    /// What the configuration of a commit stands for.
    pub open spec fn content(self) -> Content {
        match self {
            Operation::Merge | Operation::Replace => Content::Tree,
            Operation::Change => Content::Diff,
        }
    }
}

/// How a configuration is parsed that is to be committed. An operation that is
/// not known is absent.
pub fn commit(config: Option<DataTree>, operation: Option<Operation>) -> (r: Result<(Operation, ParseRequest), Status>)
    ensures
        match (config, operation) {
            (None, _) => r matches Err(s) && s@ == refusal(Code::InvalidArgument, "Missing 'config' field"@),
            (_, None) => r matches Err(s) && s@ == refusal(Code::InvalidArgument, "Invalid commit operation"@),
            (Some(tree), Some(op)) => match r {
                Ok((o, request)) => o == op && parse_requested(
                    tree,
                    op.content(),
                    Ok::<ParseRequest, Status>(request),
                ),
                Err(s) => parse_requested(tree, op.content(), Err::<ParseRequest, Status>(s)),
            },
        },
{
    let config = match config {
        Some(config) => config,
        None => {
            return Err(refuse(Code::InvalidArgument, "Missing 'config' field"));
        },
    };
    let operation = match operation {
        Some(operation) => operation,
        None => {
            return Err(refuse(Code::InvalidArgument, "Invalid commit operation"));
        },
    };
    let parsed = match operation {
        Operation::Merge => data_tree_get(config),
        Operation::Replace => data_tree_get(config),
        Operation::Change => data_diff_get(config),
    };
    match parsed {
        Ok(request) => Ok((operation, request)),
        Err(s) => Err(s),
    }
}

/// How an RPC is parsed, and the encoding of the response.
pub fn execute(data: Option<DataTree>) -> (r: Result<(Encoding, ParseRequest), Status>)
    ensures
        match data {
            Some(tree) => match r {
                Ok((encoding, request)) => tree.encoding == Some(encoding) && parse_requested(
                    tree,
                    Content::Rpc,
                    Ok::<ParseRequest, Status>(request),
                ),
                Err(s) => parse_requested(tree, Content::Rpc, Err::<ParseRequest, Status>(s)),
            },
            None => r matches Err(s) && s@ == refusal(Code::InvalidArgument, "Missing 'data' field"@),
        },
{
    let data = match data {
        Some(data) => data,
        None => {
            return Err(refuse(Code::InvalidArgument, "Missing 'data' field"));
        },
    };
    let encoding = match requested_encoding(data.encoding) {
        Ok(encoding) => encoding,
        Err(s) => {
            return Err(s);
        },
    };
    match rpc_get(data) {
        Ok(request) => Ok((encoding, request)),
        Err(s) => Err(s),
    }
}

// ===== schema =====

#[derive(Clone, Copy, Debug, PartialEq, Eq, Structural)]
pub enum SchemaFormat {
    Yang,
    Yin,
}

/// A module or submodule, of a revision or of the latest one.
#[derive(Debug)]
pub struct ModuleQuery {
    pub name: String,
    pub revision: Option<String>,
}

/// What a request for a schema asks for.
#[derive(Debug)]
pub struct SchemaQuery {
    pub module: ModuleQuery,
    pub submodule: Option<ModuleQuery>,
    pub format: SchemaFormat,
}

/// What a request for a schema asks for. A format that is not known is absent.
pub fn get_schema(
    module_name: String,
    module_revision: String,
    submodule_name: String,
    submodule_revision: String,
    format: Option<SchemaFormat>,
) -> (r: Result<SchemaQuery, Status>)
    ensures
        match format {
            Some(format) => match r {
                Ok(q) => {
                    &&& q.format == format
                    &&& q.module.name@ == module_name@
                    &&& opt_text(q.module.revision) == present_text(module_revision@)
                    &&& match q.submodule {
                        Some(sub) => present_text(submodule_name@) == Some(sub.name@) && opt_text(sub.revision)
                            == present_text(submodule_revision@),
                        None => present_text(submodule_name@) is None,
                    }
                },
                Err(_) => false,
            },
            None => r matches Err(s) && s@ == refusal(Code::InvalidArgument, "Invalid schema format"@),
        },
{
    let module_revision = get_optional_string(module_revision);
    let submodule_name = get_optional_string(submodule_name);
    let submodule_revision = get_optional_string(submodule_revision);
    let format = match format {
        Some(format) => format,
        None => {
            return Err(refuse(Code::InvalidArgument, "Invalid schema format"));
        },
    };
    let submodule = match submodule_name {
        Some(name) => Some(ModuleQuery { name, revision: submodule_revision }),
        None => None,
    };
    Ok(SchemaQuery { module: ModuleQuery { name: module_name, revision: module_revision }, submodule, format })
}

/// The status for a module that does not exist.
pub fn module_not_found() -> (r: Status)
    ensures
        r@ == refusal(Code::NotFound, "YANG module not found"@),
{
    refuse(Code::NotFound, "YANG module not found")
}

/// The status for a submodule that does not exist.
pub fn submodule_not_found() -> (r: Status)
    ensures
        r@ == refusal(Code::NotFound, "YANG submodule not found"@),
{
    refuse(Code::NotFound, "YANG submodule not found")
}

/// A module of the schema.
#[derive(Debug)]
pub struct Module {
    pub name: String,
    pub implemented: bool,
    pub organization: Option<String>,
    pub revision: Option<String>,
    /// Features of the module that are supported.
    pub features: Option<Vec<String>>,
}

/// What is told of a module that is supported.
#[derive(Debug)]
pub struct ModuleData {
    pub name: String,
    pub organization: String,
    pub revision: String,
    pub supported_features: Vec<String>,
}

pub struct ModuleDataView {
    pub name: Seq<char>,
    pub organization: Seq<char>,
    pub revision: Seq<char>,
    pub supported_features: Seq<Seq<char>>,
}

impl View for ModuleData {
    type V = ModuleDataView;

    open spec fn view(&self) -> ModuleDataView {
        ModuleDataView {
            name: self.name@,
            organization: self.organization@,
            revision: self.revision@,
            supported_features: texts(self.supported_features@),
        }
    }
}

/// The text of an option, or none.
pub open spec fn text_or_empty(s: Option<String>) -> Seq<char> {
    match s {
        Some(s) => s@,
        None => Seq::empty(),
    }
}

fn or_empty(s: &Option<String>) -> (r: String)
    ensures
        r@ == text_or_empty(*s),
{
    proof {
        reveal_strlit("");
        assert(""@ =~= Seq::<char>::empty());
    }
    match s {
        Some(s) => s.clone(),
        None => owned(""),
    }
}

/// What is told of a module.
pub open spec fn module_data(m: Module) -> ModuleDataView {
    ModuleDataView {
        name: m.name@,
        organization: text_or_empty(m.organization),
        revision: text_or_empty(m.revision),
        supported_features: match m.features {
            Some(features) => texts(features@),
            None => Seq::empty(),
        },
    }
}

/// What is told of the modules that are implemented, in order.
pub open spec fn modules_data(s: Seq<Module>) -> Seq<ModuleDataView>
    decreases s.len(),
{
    if s.len() == 0 {
        Seq::empty()
    } else if s.last().implemented {
        modules_data(s.drop_last()).push(module_data(s.last()))
    } else {
        modules_data(s.drop_last())
    }
}

fn copy_texts(s: &Vec<String>) -> (r: Vec<String>)
    ensures
        texts(r@) == texts(s@),
{
    let mut r: Vec<String> = Vec::new();
    let mut i: usize = 0;
    while i < s.len()
        invariant
            i <= s@.len(),
            r@.len() == i,
            forall|x: int| 0 <= x < i ==> (#[trigger] r@[x])@ == s@[x]@,
        decreases s@.len() - i,
    {
        r.push(s[i].clone());
        i = i + 1;
    }
    assert(texts(r@) =~= texts(s@));
    r
}

/// Fills in the modules that are supported.
pub fn supported_modules(modules: &Vec<Module>) -> (r: Vec<ModuleData>)
    ensures
        Seq::new(r@.len(), |x: int| r@[x]@) == modules_data(modules@),
{
    let mut r: Vec<ModuleData> = Vec::new();
    let mut i: usize = 0;
    let ghost all = modules@;
    assert(all.take(0) =~= Seq::empty());
    assert(Seq::new(r@.len(), |x: int| r@[x]@) =~= modules_data(all.take(0)));
    while i < modules.len()
        invariant
            i <= modules@.len(),
            all == modules@,
            Seq::new(r@.len(), |x: int| r@[x]@) == modules_data(all.take(i as int)),
        decreases modules@.len() - i,
    {
        let module = &modules[i];
        let ghost before = Seq::new(r@.len(), |x: int| r@[x]@);
        assert(all.take(i + 1).drop_last() =~= all.take(i as int));
        if module.implemented {
            let supported_features = match &module.features {
                Some(features) => copy_texts(features),
                None => Vec::new(),
            };
            let data = ModuleData {
                name: module.name.clone(),
                organization: or_empty(&module.organization),
                revision: or_empty(&module.revision),
                supported_features,
            };
            proof {
                assert(texts(Seq::<String>::empty()) =~= Seq::empty());
                assert(data@ == module_data(*module));
            }
            r.push(data);
            assert(Seq::new(r@.len(), |x: int| r@[x]@) =~= before.push(module_data(*module)));
        }
        i = i + 1;
    }
    assert(all.take(i as int) =~= all);
    r
}

/// What the server tells of itself.
#[derive(Debug)]
pub struct Capabilities {
    pub version: String,
    pub supported_modules: Vec<ModuleData>,
    pub supported_encodings: Vec<Encoding>,
}

/// Fills in what the server tells of itself.
pub fn capabilities(version: String, modules: &Vec<Module>) -> (r: Capabilities)
    ensures
        r.version@ == version@,
        Seq::new(r.supported_modules@.len(), |x: int| r.supported_modules@[x]@) == modules_data(modules@),
        r.supported_encodings@ == seq![Encoding::Json, Encoding::Xml, Encoding::Lyb],
{
    Capabilities {
        version,
        supported_modules: supported_modules(modules),
        supported_encodings: supported_encodings(),
    }
}

// ===== laws =====

/// A request on a Unix socket is accepted, and a TCP request only with the
/// credentials of a configured user.
pub proof fn only_users_get_in(unix: bool, credentials: bool, user: Option<bool>)
    ensures
        refused(unix, credentials, user) is None <==> unix || (credentials && user == Some(true)),
{
}

/// Whether a user exists cannot be told from how a wrong password is refused.
pub proof fn user_names_stay_hidden(unix: bool, credentials: bool)
    ensures
        refused(unix, credentials, None) == refused(unix, credentials, Some(false)),
{
}

/// Who sends no credentials is told so, and who sends wrong ones is told no more than that.
pub proof fn refusals_tell_what_is_missing(user: Option<bool>)
    ensures
        refused(true, false, user) is None,
        refused(true, true, user) is None,
        refused(false, true, Some(true)) is None,
        refused(false, false, user) == Some("missing credentials"@),
        refused(false, true, Some(false)) == Some("invalid credentials"@),
        refused(false, true, None) == Some("invalid credentials"@),
{
}

/// Errors are told apart by their codes: those of the request are invalid arguments, what
/// is not there is not found, and what cannot be prepared is out of resources.
pub proof fn codes_tell_errors_apart()
    ensures
        ErrorKind::YangInvalidPath.code() == Code::InvalidArgument,
        ErrorKind::YangInvalidData.code() == Code::InvalidArgument,
        ErrorKind::TransactionValidation.code() == Code::InvalidArgument,
        ErrorKind::Get.code() == Code::InvalidArgument,
        ErrorKind::YangInternal.code() == Code::Internal,
        ErrorKind::TransactionPreparation.code() == Code::ResourceExhausted,
        ErrorKind::TransactionIdNotFound.code() == Code::NotFound,
{
}

/// An address that begins with a slash names a socket, and no other one does.
pub proof fn slashes_name_sockets(rest: Seq<char>, c: char)
    ensures
        is_socket_path(seq!['/'] + rest),
        c != '/' ==> !is_socket_path(seq![c] + rest),
        !is_socket_path(Seq::empty()),
{
}

/// The causes of a failure follow one another, each after a colon.
pub proof fn causes_follow_one_another(sources: Seq<String>, cause: String)
    ensures
        sources_text(Seq::empty()).len() == 0,
        sources_text(sources.push(cause)) == sources_text(sources) + ": "@ + cause@,
{
    assert(sources.push(cause).drop_last() =~= sources);
}

/// Data is parsed in the encoding that it comes in: trees and differences without state
/// data, differences without validation, and RPCs in full. Data without an encoding, or an
/// encoding without data, is refused as such.
pub proof fn data_is_parsed_in_its_encoding(tree: DataTree, content: Content, r: Result<ParseRequest, Status>)
    requires
        parse_requested(tree, content, r),
    ensures
        tree.encoding is None ==> r is Err && (r->Err_0).code == Code::InvalidArgument && (r->Err_0).message@
            == "Invalid data encoding"@,
        tree.encoding is Some && tree.data is None ==> r is Err && (r->Err_0).code == Code::InvalidArgument && (
        r->Err_0).message@ == "Missing 'data' field"@,
        tree.encoding is Some && tree.data is Some ==> {
            let q = r->Ok_0;
            &&& r is Ok
            &&& q.content == content && q.data == tree.data->0
            &&& tree.encoding == Some(Encoding::Json) ==> q.format == DataFormat::JSON
            &&& tree.encoding == Some(Encoding::Xml) ==> q.format == DataFormat::XML
            &&& tree.encoding == Some(Encoding::Lyb) ==> q.format == DataFormat::LYB
            &&& content is Tree ==> !q.no_validation && q.no_state && !q.present
            &&& content is Diff ==> q.no_validation && q.no_state && q.present
            &&& content is Rpc ==> !q.no_validation && !q.no_state && !q.present
        },
{
}

/// Data is printed in the encoding that is asked for, with its siblings, and with default
/// values if they are asked for. No encoding is refused as such.
pub proof fn data_is_printed_as_asked(encoding: Option<Encoding>, with_defaults: bool, r: Result<Printing, Status>)
    requires
        printing_requested(encoding, with_defaults, r),
    ensures
        encoding is Some ==> r is Ok && (r->Ok_0).encoding == encoding->0 && (r->Ok_0).flags.with_siblings && (
        r->Ok_0).flags.with_all_defaults == with_defaults,
        encoding is None ==> r is Err && (r->Err_0).code == Code::InvalidArgument && (r->Err_0).message@
            == "Invalid data encoding"@,
{
}

/// Merging and replacing take a data tree, and changing takes a difference. An empty text
/// stands for none.
pub proof fn operations_take_their_content(s: Seq<char>)
    ensures
        Operation::Merge.content() == Content::Tree,
        Operation::Replace.content() == Content::Tree,
        Operation::Change.content() == Content::Diff,
        present_text(Seq::empty()) is None,
        s.len() > 0 ==> present_text(s) == Some(s),
{
}

/// Formats are those of the same name.
pub proof fn formats_are_named_after_encodings()
    ensures
        Encoding::Json.spec_format() == DataFormat::JSON,
        Encoding::Xml.spec_format() == DataFormat::XML,
        Encoding::Lyb.spec_format() == DataFormat::LYB,
        DataFormat::JSON.spec_encoding() == Encoding::Json,
        DataFormat::XML.spec_encoding() == Encoding::Xml,
        DataFormat::LYB.spec_encoding() == Encoding::Lyb,
{
}

/// The server tells of every module that is implemented, and of no other one: its name,
/// and what is known of it otherwise.
pub proof fn implemented_modules_are_told(s: Seq<Module>, m: Module, text: String, features: Vec<String>)
    ensures
        modules_data(Seq::empty()).len() == 0,
        !m.implemented ==> modules_data(s.push(m)) == modules_data(s),
        m.implemented ==> {
            let r = modules_data(s.push(m));
            let d = r.last();
            &&& r.len() == modules_data(s).len() + 1 && r.drop_last() == modules_data(s)
            &&& d.name == m.name@
            &&& m.organization == Some(text) ==> d.organization == text@
            &&& m.organization is None ==> d.organization.len() == 0
            &&& m.revision == Some(text) ==> d.revision == text@
            &&& m.revision is None ==> d.revision.len() == 0
            &&& m.features == Some(features) ==> d.supported_features == texts(features@)
            &&& m.features is None ==> d.supported_features.len() == 0
        },
{
    assert(s.push(m).drop_last() =~= s);
    assert(s.push(m).last() == m);
    assert(modules_data(s).push(module_data(m)).drop_last() =~= modules_data(s));
}

} // verus!
