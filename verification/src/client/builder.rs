use vstd::prelude::*;

use crate::client::server::ServerRegistry;
use crate::client::text::string_of;
use crate::client::Client;
use crate::error::Error;
use crate::headers::{
    CLIENT_ID, DEVICE, DEVICE_NAME, DEVICE_VENDOR, MARKETPLACE, MODEL, PLATFORM, PLATFORM_VERSION,
    PRODUCT, VERSION,
};

verus! {

/// The name and version of this library, as it introduces itself in the
/// `User-Agent` header.
pub const LIB_IDENT: &'static str = "plex_client/0.1.0";

/// Settings of a client to be built. Only the client identifier is required.
#[derive(Clone)]
pub struct ClientBuilder {
    client_id: Option<String>,
    token: Option<String>,
    product: Option<String>,
    version: Option<String>,
    platform: Option<String>,
    platform_version: Option<String>,
    device: Option<String>,
    device_vendor: Option<String>,
    device_name: Option<String>,
    model: Option<String>,
    marketplace: Option<String>,
}

/// The settings of a builder, as values.
pub struct BuilderModel {
    pub client_id: Option<Seq<char>>,
    pub token: Option<Seq<char>>,
    pub product: Option<Seq<char>>,
    pub version: Option<Seq<char>>,
    pub platform: Option<Seq<char>>,
    pub platform_version: Option<Seq<char>>,
    pub device: Option<Seq<char>>,
    pub device_vendor: Option<Seq<char>>,
    pub device_name: Option<Seq<char>>,
    pub model: Option<Seq<char>>,
    pub marketplace: Option<Seq<char>>,
}

/// One setting of a builder.
#[derive(Debug, Clone, Copy, PartialEq, Eq, Structural)]
pub enum Setting {
    ClientId,
    Token,
    Product,
    Version,
    Platform,
    PlatformVersion,
    Device,
    DeviceVendor,
    DeviceName,
    Model,
    Marketplace,
}

/// The value of setting `f` in `m`.
pub open spec fn setting(m: BuilderModel, f: Setting) -> Option<Seq<char>> {
    match f {
        Setting::ClientId => m.client_id,
        Setting::Token => m.token,
        Setting::Product => m.product,
        Setting::Version => m.version,
        Setting::Platform => m.platform,
        Setting::PlatformVersion => m.platform_version,
        Setting::Device => m.device,
        Setting::DeviceVendor => m.device_vendor,
        Setting::DeviceName => m.device_name,
        Setting::Model => m.model,
        Setting::Marketplace => m.marketplace,
    }
}

/// `m` with setting `f` made `v`, and every other setting kept.
pub open spec fn set_setting(m: BuilderModel, f: Setting, v: Option<Seq<char>>) -> BuilderModel {
    match f {
        Setting::ClientId => BuilderModel { client_id: v, ..m },
        Setting::Token => BuilderModel { token: v, ..m },
        Setting::Product => BuilderModel { product: v, ..m },
        Setting::Version => BuilderModel { version: v, ..m },
        Setting::Platform => BuilderModel { platform: v, ..m },
        Setting::PlatformVersion => BuilderModel { platform_version: v, ..m },
        Setting::Device => BuilderModel { device: v, ..m },
        Setting::DeviceVendor => BuilderModel { device_vendor: v, ..m },
        Setting::DeviceName => BuilderModel { device_name: v, ..m },
        Setting::Model => BuilderModel { model: v, ..m },
        Setting::Marketplace => BuilderModel { marketplace: v, ..m },
    }
}

/// A setting reads back as it was made, and making it leaves every other
/// setting as it was.
pub proof fn lemma_setting_read_back(m: BuilderModel, f: Setting, v: Option<Seq<char>>, g: Setting)
    ensures
        setting(set_setting(m, f, v), g) == if g == f { v } else { setting(m, g) },
{
}

/// Two setters of different settings give the same builder in either order.
pub proof fn lemma_setters_commute(
    m: BuilderModel,
    f: Setting,
    v: Option<Seq<char>>,
    g: Setting,
    w: Option<Seq<char>>,
)
    requires
        f != g,
    ensures
        set_setting(set_setting(m, f, v), g, w) == set_setting(set_setting(m, g, w), f, v),
{
}

/// Of two calls of setters of one setting, the later one wins.
pub proof fn lemma_last_setting_wins(m: BuilderModel, f: Setting, v: Option<Seq<char>>, w: Option<Seq<char>>)
    ensures
        set_setting(set_setting(m, f, v), f, w) == set_setting(m, f, w),
{
}

pub open spec fn text_of(s: Option<String>) -> Option<Seq<char>> {
    match s {
        Some(t) => Some(t@),
        None => None,
    }
}

pub open spec fn text_of_str(s: Option<&str>) -> Option<Seq<char>> {
    match s {
        Some(t) => Some(t@),
        None => None,
    }
}

impl View for ClientBuilder {
    type V = BuilderModel;

    closed spec fn view(&self) -> BuilderModel {
        BuilderModel {
            client_id: text_of(self.client_id),
            token: text_of(self.token),
            product: text_of(self.product),
            version: text_of(self.version),
            platform: text_of(self.platform),
            platform_version: text_of(self.platform_version),
            device: text_of(self.device),
            device_vendor: text_of(self.device_vendor),
            device_name: text_of(self.device_name),
            model: text_of(self.model),
            marketplace: text_of(self.marketplace),
        }
    }
}

fn own(s: Option<&str>) -> (r: Option<String>)
    ensures
        text_of(r) == text_of_str(s),
{
    match s {
        Some(t) => Some(string_of(t)),
        None => None,
    }
}

// ---------------------------------------------------------------------------
// Header values
// ---------------------------------------------------------------------------

/// The bytes an HTTP header value may hold: visible ASCII, space, tab, and
/// any byte of 0x80 or above.
pub open spec fn is_header_value_byte(b: u8) -> bool {
    (b >= 32 && b != 127) || b == 9
}

pub open spec fn header_value_ok(s: Seq<char>) -> bool {
    forall|i: int|
        0 <= i < vstd::utf8::encode_utf8(s).len() ==> is_header_value_byte(
            #[trigger] vstd::utf8::encode_utf8(s)[i],
        )
}

/// Calls `http::HeaderValue::from_str` and reports whether it succeeded.
/// Claimed (from its source): it fails exactly when some byte of the UTF-8
/// text is a control character other than tab, or DEL.
#[verifier::external_body]
fn valid_header_value(s: &str) -> (r: bool)
    ensures
        r == header_value_ok(s@),
{
    http::HeaderValue::from_str(s).is_ok()
}

pub open spec fn optional_ok(s: Option<Seq<char>>) -> bool {
    match s {
        Some(v) => header_value_ok(v),
        None => true,
    }
}

/// `"{product}/{version} - {lib}"`, leaving out what is not set.
pub open spec fn user_agent(m: BuilderModel) -> Seq<char> {
    match (m.product, m.version) {
        (Some(p), Some(v)) => p + "/"@ + v + " - "@ + LIB_IDENT@,
        (Some(p), None) => p + " - "@ + LIB_IDENT@,
        (None, Some(v)) => v + " - "@ + LIB_IDENT@,
        (None, None) => LIB_IDENT@,
    }
}

/// Whether every header value that the settings make is valid.
pub open spec fn headers_ok(m: BuilderModel, client_id: Seq<char>) -> bool {
    &&& header_value_ok(client_id)
    &&& optional_ok(m.product)
    &&& optional_ok(m.version)
    &&& optional_ok(m.platform)
    &&& optional_ok(m.platform_version)
    &&& optional_ok(m.device)
    &&& optional_ok(m.device_vendor)
    &&& optional_ok(m.device_name)
    &&& optional_ok(m.model)
    &&& optional_ok(m.marketplace)
    &&& header_value_ok(user_agent(m))
}

pub open spec fn optional_header(name: Seq<char>, value: Option<Seq<char>>) -> Seq<
    (Seq<char>, Seq<char>),
> {
    match value {
        Some(v) => seq![(name, v)],
        None => Seq::empty(),
    }
}

/// The default headers of a client built from `m`, in the order they are
/// set.
pub open spec fn expected_headers(m: BuilderModel, client_id: Seq<char>) -> Seq<
    (Seq<char>, Seq<char>),
> {
    seq![("accept"@, "application/json"@), (CLIENT_ID@, client_id)] + optional_header(
        PRODUCT@,
        m.product,
    ) + optional_header(VERSION@, m.version) + optional_header(PLATFORM@, m.platform)
        + optional_header(PLATFORM_VERSION@, m.platform_version) + optional_header(
        DEVICE@,
        m.device,
    ) + optional_header(DEVICE_VENDOR@, m.device_vendor) + optional_header(
        DEVICE_NAME@,
        m.device_name,
    ) + optional_header(MODEL@, m.model) + optional_header(MARKETPLACE@, m.marketplace) + seq![
        ("user-agent"@, user_agent(m)),
    ]
}

pub open spec fn header_texts(h: Seq<(String, String)>) -> Seq<(Seq<char>, Seq<char>)> {
    h.map_values(|p: (String, String)| (p.0@, p.1@))
}

/// `c` is the client built from settings `m` with client id `client_id`.
pub open spec fn built_from(c: Client, m: BuilderModel, client_id: Seq<char>) -> bool {
    &&& c@.client_id == client_id
    &&& c@.token == m.token
    &&& c@.product == m.product
    &&& header_texts(c@.default_headers) == expected_headers(m, client_id)
    &&& c@.registry.servers.len() == 0
    &&& c@.registry.last_refreshed is None
    &&& !c@.registry.refreshing
}

fn push_header(headers: &mut Vec<(String, String)>, name: &str, value: &str)
    ensures
        header_texts(final(headers)@) == header_texts(old(headers)@).push((name@, value@)),
{
    headers.push((string_of(name), string_of(value)));
    proof {
        assert(header_texts(headers@) =~= header_texts(old(headers)@).push((name@, value@)));
    }
}

fn push_optional_header(headers: &mut Vec<(String, String)>, name: &str, value: &Option<String>)
    ensures
        header_texts(final(headers)@) == header_texts(old(headers)@) + optional_header(
            name@,
            text_of(*value),
        ),
{
    match value {
        Some(v) => {
            push_header(headers, name, v.as_str());
            proof {
                assert(header_texts(old(headers)@).push((name@, v@)) =~= header_texts(old(headers)@)
                    + seq![(name@, v@)]);
            }
        },
        None => {
            proof {
                assert(header_texts(old(headers)@) =~= header_texts(old(headers)@) + Seq::empty());
            }
        },
    }
}

fn optional_valid(value: &Option<String>) -> (r: bool)
    ensures
        r == optional_ok(text_of(*value)),
{
    match value {
        Some(v) => valid_header_value(v.as_str()),
        None => true,
    }
}

fn user_agent_text(product: &Option<String>, version: &Option<String>) -> (r: String)
    ensures
        forall|m: BuilderModel|
            m.product == text_of(*product) && m.version == text_of(*version) ==> r@ == user_agent(m),
{
    match (product, version) {
        (Some(p), Some(v)) => {
            let mut s = string_of(p.as_str());
            s.append("/");
            s.append(v.as_str());
            s.append(" - ");
            s.append(LIB_IDENT);
            s
        },
        (Some(p), None) => {
            let mut s = string_of(p.as_str());
            s.append(" - ");
            s.append(LIB_IDENT);
            s
        },
        (None, Some(v)) => {
            let mut s = string_of(v.as_str());
            s.append(" - ");
            s.append(LIB_IDENT);
            s
        },
        (None, None) => string_of(LIB_IDENT),
    }
}

impl Default for ClientBuilder {
    fn default() -> (r: Self)
        ensures
            r.is_empty(),
    {
        ClientBuilder {
            client_id: None,
            token: None,
            product: None,
            version: None,
            platform: None,
            platform_version: None,
            device: None,
            device_vendor: None,
            device_name: None,
            model: None,
            marketplace: None,
        }
    }
}

impl ClientBuilder {
    /// No setting is made.
    pub open spec fn is_empty(&self) -> bool {
        let m = self@;
        &&& m.client_id is None
        &&& m.token is None
        &&& m.product is None
        &&& m.version is None
        &&& m.platform is None
        &&& m.platform_version is None
        &&& m.device is None
        &&& m.device_vendor is None
        &&& m.device_name is None
        &&& m.model is None
        &&& m.marketplace is None
    }

    pub fn client_identifier(self, id: &str) -> (r: Self)
        ensures
            r@ == set_setting(self@, Setting::ClientId, Some(id@)),
    {
        ClientBuilder { client_id: Some(string_of(id)), ..self }
    }

    pub fn token(self, token: &str) -> (r: Self)
        ensures
            r@ == set_setting(self@, Setting::Token, Some(token@)),
    {
        ClientBuilder { token: Some(string_of(token)), ..self }
    }

    pub fn maybe_token(self, token: Option<&str>) -> (r: Self)
        ensures
            r@ == set_setting(self@, Setting::Token, text_of_str(token)),
    {
        ClientBuilder { token: own(token), ..self }
    }

    pub fn product(self, product: &str) -> (r: Self)
        ensures
            r@ == set_setting(self@, Setting::Product, Some(product@)),
    {
        ClientBuilder { product: Some(string_of(product)), ..self }
    }

    pub fn maybe_product(self, product: Option<&str>) -> (r: Self)
        ensures
            r@ == set_setting(self@, Setting::Product, text_of_str(product)),
    {
        ClientBuilder { product: own(product), ..self }
    }

    pub fn version(self, version: &str) -> (r: Self)
        ensures
            r@ == set_setting(self@, Setting::Version, Some(version@)),
    {
        ClientBuilder { version: Some(string_of(version)), ..self }
    }

    pub fn maybe_version(self, version: Option<&str>) -> (r: Self)
        ensures
            r@ == set_setting(self@, Setting::Version, text_of_str(version)),
    {
        ClientBuilder { version: own(version), ..self }
    }

    pub fn platform(self, platform: &str) -> (r: Self)
        ensures
            r@ == set_setting(self@, Setting::Platform, Some(platform@)),
    {
        ClientBuilder { platform: Some(string_of(platform)), ..self }
    }

    pub fn maybe_platform(self, platform: Option<&str>) -> (r: Self)
        ensures
            r@ == set_setting(self@, Setting::Platform, text_of_str(platform)),
    {
        ClientBuilder { platform: own(platform), ..self }
    }

    pub fn platform_version(self, platform_version: &str) -> (r: Self)
        ensures
            r@ == set_setting(self@, Setting::PlatformVersion, Some(platform_version@)),
    {
        ClientBuilder { platform_version: Some(string_of(platform_version)), ..self }
    }

    pub fn maybe_platform_version(self, platform_version: Option<&str>) -> (r: Self)
        ensures
            r@ == set_setting(self@, Setting::PlatformVersion, text_of_str(platform_version)),
    {
        ClientBuilder { platform_version: own(platform_version), ..self }
    }

    pub fn device(self, device: &str) -> (r: Self)
        ensures
            r@ == set_setting(self@, Setting::Device, Some(device@)),
    {
        ClientBuilder { device: Some(string_of(device)), ..self }
    }

    pub fn maybe_device(self, device: Option<&str>) -> (r: Self)
        ensures
            r@ == set_setting(self@, Setting::Device, text_of_str(device)),
    {
        ClientBuilder { device: own(device), ..self }
    }

    pub fn device_vendor(self, device_vendor: &str) -> (r: Self)
        ensures
            r@ == set_setting(self@, Setting::DeviceVendor, Some(device_vendor@)),
    {
        ClientBuilder { device_vendor: Some(string_of(device_vendor)), ..self }
    }

    pub fn maybe_device_vendor(self, device_vendor: Option<&str>) -> (r: Self)
        ensures
            r@ == set_setting(self@, Setting::DeviceVendor, text_of_str(device_vendor)),
    {
        ClientBuilder { device_vendor: own(device_vendor), ..self }
    }

    pub fn device_name(self, device_name: &str) -> (r: Self)
        ensures
            r@ == set_setting(self@, Setting::DeviceName, Some(device_name@)),
    {
        ClientBuilder { device_name: Some(string_of(device_name)), ..self }
    }

    pub fn maybe_device_name(self, device_name: Option<&str>) -> (r: Self)
        ensures
            r@ == set_setting(self@, Setting::DeviceName, text_of_str(device_name)),
    {
        ClientBuilder { device_name: own(device_name), ..self }
    }

    pub fn model(self, model: &str) -> (r: Self)
        ensures
            r@ == set_setting(self@, Setting::Model, Some(model@)),
    {
        ClientBuilder { model: Some(string_of(model)), ..self }
    }

    pub fn maybe_model(self, model: Option<&str>) -> (r: Self)
        ensures
            r@ == set_setting(self@, Setting::Model, text_of_str(model)),
    {
        ClientBuilder { model: own(model), ..self }
    }

    pub fn marketplace(self, marketplace: &str) -> (r: Self)
        ensures
            r@ == set_setting(self@, Setting::Marketplace, Some(marketplace@)),
    {
        ClientBuilder { marketplace: Some(string_of(marketplace)), ..self }
    }

    pub fn maybe_marketplace(self, marketplace: Option<&str>) -> (r: Self)
        ensures
            r@ == set_setting(self@, Setting::Marketplace, text_of_str(marketplace)),
    {
        ClientBuilder { marketplace: own(marketplace), ..self }
    }

    /// The client these settings describe. Fails without a client
    /// identifier, and when a header value would hold a forbidden byte.
    #[verifier::rlimit(40)]
    pub fn build(self) -> (r: Result<Client, Error>)
        ensures
            match self@.client_id {
                None => r matches Err(Error::Generic(m)) && m@
                    == "client_identifier is required"@,
                Some(id) => if headers_ok(self@, id) {
                    r matches Ok(c) && built_from(c, self@, id)
                } else {
                    r matches Err(Error::InvalidHeaderValue)
                },
            },
    {
        let ghost m = self@;
        let client_id = match self.client_id {
            Some(id) => id,
            None => {
                return Err(Error::Generic(string_of("client_identifier is required")));
            },
        };
        let mut headers: Vec<(String, String)> = Vec::new();
        push_header(&mut headers, "accept", "application/json");
        if !valid_header_value(client_id.as_str()) {
            return Err(Error::InvalidHeaderValue);
        }
        push_header(&mut headers, CLIENT_ID, client_id.as_str());
        if !optional_valid(&self.product) {
            return Err(Error::InvalidHeaderValue);
        }
        push_optional_header(&mut headers, PRODUCT, &self.product);
        if !optional_valid(&self.version) {
            return Err(Error::InvalidHeaderValue);
        }
        push_optional_header(&mut headers, VERSION, &self.version);
        if !optional_valid(&self.platform) {
            return Err(Error::InvalidHeaderValue);
        }
        push_optional_header(&mut headers, PLATFORM, &self.platform);
        if !optional_valid(&self.platform_version) {
            return Err(Error::InvalidHeaderValue);
        }
        push_optional_header(&mut headers, PLATFORM_VERSION, &self.platform_version);
        if !optional_valid(&self.device) {
            return Err(Error::InvalidHeaderValue);
        }
        push_optional_header(&mut headers, DEVICE, &self.device);
        if !optional_valid(&self.device_vendor) {
            return Err(Error::InvalidHeaderValue);
        }
        push_optional_header(&mut headers, DEVICE_VENDOR, &self.device_vendor);
        if !optional_valid(&self.device_name) {
            return Err(Error::InvalidHeaderValue);
        }
        push_optional_header(&mut headers, DEVICE_NAME, &self.device_name);
        if !optional_valid(&self.model) {
            return Err(Error::InvalidHeaderValue);
        }
        push_optional_header(&mut headers, MODEL, &self.model);
        if !optional_valid(&self.marketplace) {
            return Err(Error::InvalidHeaderValue);
        }
        push_optional_header(&mut headers, MARKETPLACE, &self.marketplace);
        let agent = user_agent_text(&self.product, &self.version);
        if !valid_header_value(agent.as_str()) {
            return Err(Error::InvalidHeaderValue);
        }
        push_header(&mut headers, "user-agent", agent.as_str());
        proof {
            assert(header_texts(headers@) =~= expected_headers(m, client_id@));
        }
        Ok(
            Client {
                token: self.token,
                client_id,
                product: self.product,
                default_headers: headers,
                registry: ServerRegistry::default(),
            },
        )
    }
}

} // verus!
