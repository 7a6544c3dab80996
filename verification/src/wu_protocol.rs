use vstd::prelude::*;

use crate::error::{CoreError, Result};
use crate::text::{contains_seq, occurs_at, str_eq};
use crate::types::strings_view;

verus! {
pub const DEFAULT_URL: &'static str = "https://fe3.delivery.mp.microsoft.com/ClientWebService/client.asmx";
pub const SECURED_URL: &'static str = "https://fe3.delivery.mp.microsoft.com/ClientWebService/client.asmx/secured";
pub const SOAP_NS: &'static str = "http://www.w3.org/2003/05/soap-envelope";
pub const ADDRESSING_NS: &'static str = "http://www.w3.org/2005/08/addressing";
pub const SECEXT_NS: &'static str = "http://docs.oasis-open.org/wss/2004/01/oasis-200401-wss-wssecurity-secext-1.0.xsd";
pub const SECUTIL_NS: &'static str = "http://docs.oasis-open.org/wss/2004/01/oasis-200401-wss-wssecurity-utility-1.0.xsd";
pub const WUWS_NS: &'static str = "http://schemas.microsoft.com/msus/2014/10/WindowsUpdateAuthorization";
pub const WUCLIENT_NS: &'static str = "http://www.microsoft.com/SoftwareDistribution/Server/ClientWebService";
/// The device attributes sent with a request, as XML character data: each `&`
/// of the attribute list is written `&amp;`.
pub const DEVICE_ATTRIBUTES_XML: &'static str = "E:BranchReadinessLevel=CBB&amp;DchuNvidiaGrfxExists=1&amp;ProcessorIdentifier=Intel64%20Family%206%20Model%2063%20Stepping%202&amp;CurrentBranch=rs4_release&amp;DataVer_RS5=1942&amp;FlightRing=Retail&amp;AttrDataVer=57&amp;InstallLanguage=en-US&amp;DchuAmdGrfxExists=1&amp;OSUILocale=en-US&amp;InstallationType=Client&amp;FlightingBranchName=&amp;Version_RS5=10&amp;UpgEx_RS5=Green&amp;GStatus_RS5=2&amp;OSSkuId=48&amp;App=WU&amp;InstallDate=1529700913&amp;ProcessorManufacturer=GenuineIntel&amp;AppVer=10.0.17134.471&amp;OSArchitecture=AMD64&amp;UpdateManagementGroup=2&amp;IsDeviceRetailDemo=0&amp;HidOverGattReg=C%3A%5CWINDOWS%5CSystem32%5CDriverStore%5CFileRepository%5Chidbthle.inf_amd64_467f181075371c89%5CMicrosoft.Bluetooth.Profiles.HidOverGatt.dll&amp;IsFlightingEnabled=0&amp;DchuIntelGrfxExists=1&amp;TelemetryLevel=1&amp;DefaultUserRegion=244&amp;DeferFeatureUpdatePeriodInDays=365&amp;Bios=Unknown&amp;WuClientVer=10.0.17134.471&amp;PausedFeatureStatus=1&amp;Steam=URL%3Asteam%20protocol&amp;Free=8to16&amp;OSVersion=10.0.17134.472&amp;DeviceFamily=Windows.Desktop";
pub const REQUEST_SEGMENT_0: &'static str = "<s:Envelope xmlns:a=\"";
pub const REQUEST_SEGMENT_1: &'static str = "\" xmlns:s=\"";
pub const REQUEST_SEGMENT_2: &'static str = "\">\n  <s:Header>\n    <a:Action s:mustUnderstand=\"1\">";
pub const REQUEST_SEGMENT_3: &'static str = "/GetExtendedUpdateInfo2</a:Action>\n    <a:MessageID>urn:uuid:5754a03d-d8d5-489f-b24d-efc31b3fd32d</a:MessageID>\n    <a:To s:mustUnderstand=\"1\">";
pub const REQUEST_SEGMENT_4: &'static str = "</a:To>\n    <o:Security s:mustUnderstand=\"1\" xmlns:o=\"";
pub const REQUEST_SEGMENT_5: &'static str = "\">\n      <wsu:Timestamp xmlns:wsu=\"";
pub const REQUEST_SEGMENT_6: &'static str = "\">\n        <wsu:Created>";
pub const REQUEST_SEGMENT_7: &'static str = "</wsu:Created>\n        <wsu:Expires>";
pub const REQUEST_SEGMENT_8: &'static str = "</wsu:Expires>\n      </wsu:Timestamp>\n      ";
pub const REQUEST_SEGMENT_9: &'static str = "\n    </o:Security>\n  </s:Header>\n  <s:Body>\n    <GetExtendedUpdateInfo2 xmlns=\"";
pub const REQUEST_SEGMENT_10: &'static str = "\">\n      <updateIDs>\n        <UpdateIdentity>\n          <UpdateID>";
pub const REQUEST_SEGMENT_11: &'static str = "</UpdateID>\n          <RevisionNumber>";
pub const REQUEST_SEGMENT_12: &'static str = "</RevisionNumber>\n        </UpdateIdentity>\n      </updateIDs>\n      <infoTypes>\n        <XmlUpdateFragmentType>FileUrl</XmlUpdateFragmentType>\n      </infoTypes>\n      <deviceAttributes>";
pub const REQUEST_SEGMENT_13: &'static str = "</deviceAttributes>\n    </GetExtendedUpdateInfo2>\n  </s:Body>\n</s:Envelope>";

/// The SOAP `GetExtendedUpdateInfo2` request for the file urls of one update
/// revision, with the given timestamps and tickets.
pub open spec fn download_request_xml(
    created: Seq<char>,
    expires: Seq<char>,
    tickets: Seq<char>,
    update_identity: Seq<char>,
    revision_number: Seq<char>,
) -> Seq<char> {
    REQUEST_SEGMENT_0@
        + ADDRESSING_NS@
        + REQUEST_SEGMENT_1@
        + SOAP_NS@
        + REQUEST_SEGMENT_2@
        + WUCLIENT_NS@
        + REQUEST_SEGMENT_3@
        + SECURED_URL@
        + REQUEST_SEGMENT_4@
        + SECEXT_NS@
        + REQUEST_SEGMENT_5@
        + SECUTIL_NS@
        + REQUEST_SEGMENT_6@
        + created
        + REQUEST_SEGMENT_7@
        + expires
        + REQUEST_SEGMENT_8@
        + tickets
        + REQUEST_SEGMENT_9@
        + WUCLIENT_NS@
        + REQUEST_SEGMENT_10@
        + update_identity
        + REQUEST_SEGMENT_11@
        + revision_number
        + REQUEST_SEGMENT_12@
        + DEVICE_ATTRIBUTES_XML@
        + REQUEST_SEGMENT_13@
}

pub const TICKETS_OPEN_0: &'static str = "<wuws:WindowsUpdateTicketsToken wsu:id=\"ClientMSA\" xmlns:wsu=\"";

pub const TICKETS_OPEN_1: &'static str = "\" xmlns:wuws=\"";

pub const TICKETS_OPEN_2: &'static str = "\">";

pub const MSA_TICKET_OPEN: &'static str = "<TicketType Name=\"MSA\" Version=\"1.0\" Policy=\"MBI_SSL\"><User>";

pub const MSA_TICKET_CLOSE: &'static str = "</User></TicketType>";

pub const AAD_TICKET: &'static str = "<TicketType Name=\"AAD\" Version=\"1.0\" Policy=\"MBI_SSL\"></TicketType>";

pub const TICKETS_CLOSE: &'static str = "</wuws:WindowsUpdateTicketsToken>";

/// The tickets token: an MSA ticket carrying the user token when there is one,
/// then an empty AAD ticket.
pub open spec fn wu_tickets_xml(token: Option<Seq<char>>) -> Seq<char> {
    TICKETS_OPEN_0@ + SECUTIL_NS@ + TICKETS_OPEN_1@ + WUWS_NS@ + TICKETS_OPEN_2@ + match token {
        Some(t) => MSA_TICKET_OPEN@ + t + MSA_TICKET_CLOSE@,
        None => Seq::empty(),
    } + AAD_TICKET@ + TICKETS_CLOSE@
}

/// `OffsetDateTime::now_utc` read as `unix_timestamp_nanos`: the current time in
/// nanoseconds since the Unix epoch. Only its range is stated: it is a whole
/// number of seconds that fits `i64`, times 10^9, plus less than 10^9.
#[verifier::external_body]
fn unix_nanos_now() -> (t: i128)
    ensures
        i64::MIN as int * 1_000_000_000 <= t <= i64::MAX as int * 1_000_000_000 + 999_999_999,
{
    time::OffsetDateTime::now_utc().unix_timestamp_nanos()
}

/// The RFC 3339 text of the instant `unix_nanos` nanoseconds after the Unix epoch,
/// in UTC, or nothing when that instant cannot be written.
pub uninterp spec fn rfc3339_text(unix_nanos: i128) -> Option<Seq<char>>;

/// `OffsetDateTime::from_unix_timestamp_nanos`, then `format` with the RFC 3339
/// description. An instant out of the type's range comes back as the format
/// error that holds the range error. The text is a function of the instant
/// alone, left to the name `rfc3339_text`.
#[verifier::external_body]
fn format_rfc3339(unix_nanos: i128) -> (r: std::result::Result<String, time::error::Format>)
    ensures
        match r {
            Ok(s) => rfc3339_text(unix_nanos) == Some(s@),
            Err(_) => rfc3339_text(unix_nanos) is None,
        },
{
    match time::OffsetDateTime::from_unix_timestamp_nanos(unix_nanos) {
        Ok(t) => t.format(&time::format_description::well_known::Rfc3339),
        Err(e) => Err(time::error::Format::ComponentRange(Box::new(e))),
    }
}

/// How long a request stays valid: five minutes, in nanoseconds.
pub const REQUEST_LIFETIME_NANOS: i128 = 300_000_000_000;

/// Whether `t` is an instant the clock can give: a whole number of seconds that
/// fits `i64`, in nanoseconds, plus less than a second.
pub open spec fn clock_instant(t: int) -> bool {
    i64::MIN as int * 1_000_000_000 <= t <= i64::MAX as int * 1_000_000_000 + 999_999_999
}

/// The download request stamped at instant `t` (created at `t`, expiring a
/// request lifetime later), or nothing when one of the two stamps cannot be
/// written in RFC 3339.
pub open spec fn request_at_instant(
    t: i128,
    token: Option<Seq<char>>,
    update_identity: Seq<char>,
    revision_number: Seq<char>,
) -> Option<Seq<char>> {
    match (rfc3339_text(t), rfc3339_text((t + REQUEST_LIFETIME_NANOS) as i128)) {
        (Some(created), Some(expires)) => Some(
            download_request_xml(
                created,
                expires,
                wu_tickets_xml(token),
                update_identity,
                revision_number,
            ),
        ),
        _ => None,
    }
}

/// Whether a request can be built at an instant depends on the instant alone:
/// it can exactly when the instant and the instant a lifetime later both have an
/// RFC 3339 text, whatever the token, update and revision. When it can, the
/// request carries the two stamps, the tickets of the token, the update and the
/// revision given.
pub proof fn lemma_request_fails_only_for_unwritable_instants(
    t: i128,
    token: Option<Seq<char>>,
    other_token: Option<Seq<char>>,
    update_identity: Seq<char>,
    revision_number: Seq<char>,
)
    ensures
        request_at_instant(t, token, update_identity, revision_number) is Some <==> (rfc3339_text(t) is Some
            && rfc3339_text((t + REQUEST_LIFETIME_NANOS) as i128) is Some),
        request_at_instant(t, token, update_identity, revision_number) is Some <==> request_at_instant(
            t,
            other_token,
            update_identity,
            revision_number,
        ) is Some,
        request_at_instant(t, token, update_identity, revision_number) matches Some(s) ==> {
            &&& rfc3339_text(t) matches Some(c) && rfc3339_text(
                (t + REQUEST_LIFETIME_NANOS) as i128,
            ) matches Some(x) && s == download_request_xml(
                c,
                x,
                wu_tickets_xml(token),
                update_identity,
                revision_number,
            )
        },
{
}

/// A node of a parsed XML document, in document order: whether it is an
/// element, its local tag name (empty for other nodes), the local tag name of its
/// parent element if it has one, and its text (for an element, that of its
/// first child when that is text).
#[derive(Debug)]
pub struct XmlNode {
    pub is_element: bool,
    pub tag_name: String,
    pub parent_tag: Option<String>,
    pub text: Option<String>,
}

pub struct XmlNodeView {
    pub is_element: bool,
    pub tag_name: Seq<char>,
    pub parent_tag: Option<Seq<char>>,
    pub text: Option<Seq<char>>,
}

pub open spec fn opt_string_view(s: Option<String>) -> Option<Seq<char>> {
    match s {
        Some(x) => Some(x@),
        None => None,
    }
}

impl View for XmlNode {
    type V = XmlNodeView;

    open spec fn view(&self) -> XmlNodeView {
        XmlNodeView {
            is_element: self.is_element,
            tag_name: self.tag_name@,
            parent_tag: opt_string_view(self.parent_tag),
            text: opt_string_view(self.text),
        }
    }
}

pub open spec fn nodes_view(s: Seq<XmlNode>) -> Seq<XmlNodeView> {
    s.map_values(|n: XmlNode| n@)
}

/// The nodes of the document that `roxmltree::Document::parse` makes of `xml`, in
/// document order, or nothing when it rejects the text.
pub uninterp spec fn xml_document_nodes(xml: Seq<char>) -> Option<Seq<XmlNodeView>>;

/// `roxmltree::Document::parse`, with the descendants of the document handed
/// out as plain nodes. The result is a function of the text alone; which text
/// parses, and to which nodes, is left to the name `xml_document_nodes`.
#[verifier::external_body]
fn parse_xml_nodes(xml: &str) -> (r: std::result::Result<Vec<XmlNode>, roxmltree::Error>)
    ensures
        match r {
            Ok(nodes) => xml_document_nodes(xml@) == Some(nodes_view(nodes@)),
            Err(_) => xml_document_nodes(xml@) is None,
        },
{
    let doc = roxmltree::Document::parse(xml)?;
    Ok(doc.descendants().map(|n| XmlNode {
        is_element: n.is_element(),
        tag_name: n.tag_name().name().to_string(),
        parent_tag: n.parent_element().map(|p| p.tag_name().name().to_string()),
        text: n.text().map(|t| t.to_string()),
    }).collect())
}

/// The node is a `Url` element with text, under a `FileLocation` element or
/// under no element.
pub open spec fn is_file_url_node(n: XmlNodeView) -> bool {
    &&& n.is_element
    &&& n.tag_name == "Url"@
    &&& (n.parent_tag matches Some(p) ==> p == "FileLocation"@)
    &&& n.text is Some
}

/// The texts of the file-url nodes, in document order.
pub open spec fn response_urls(nodes: Seq<XmlNodeView>) -> Seq<Seq<char>>
    decreases nodes.len(),
{
    if nodes.len() == 0 {
        Seq::empty()
    } else {
        let rest = response_urls(nodes.drop_last());
        if is_file_url_node(nodes.last()) {
            rest.push(nodes.last().text.unwrap())
        } else {
            rest
        }
    }
}

/// The download urls that a parsed `GetExtendedUpdateInfo2` response lists.
pub fn download_urls_from_nodes(nodes: &Vec<XmlNode>) -> (r: Vec<String>)
    ensures
        strings_view(r@) == response_urls(nodes_view(nodes@)),
{
    let ghost all = nodes_view(nodes@);
    let mut urls: Vec<String> = Vec::new();
    let mut i: usize = 0;
    assert(all.take(0) =~= Seq::<XmlNodeView>::empty());
    while i < nodes.len()
        invariant
            i <= nodes@.len(),
            all == nodes_view(nodes@),
            strings_view(urls@) == response_urls(all.take(i as int)),
        decreases nodes@.len() - i,
    {
        assert(all.take(i + 1).drop_last() =~= all.take(i as int));
        assert(all.take(i + 1).last() == nodes@[i as int]@);
        let node = &nodes[i];
        if node.is_element && str_eq(node.tag_name.as_str(), "Url") {
            let under_file_location = match &node.parent_tag {
                Some(parent) => str_eq(parent.as_str(), "FileLocation"),
                None => true,
            };
            if under_file_location {
                match &node.text {
                    Some(text) => {
                        let ghost before = urls@;
                        urls.push(text.clone());
                        assert(strings_view(urls@) =~= strings_view(before).push(text@));
                    },
                    None => {},
                }
            }
        }
        i = i + 1;
    }
    assert(all.take(nodes@.len() as int) =~= all);
    urls
}

/// The Windows Update protocol client state: the MSA user token, when one is set.
#[derive(Debug)]
pub struct WUProtocol {
    msa_user_token: Option<String>,
}

impl Default for WUProtocol {
    fn default() -> (r: Self)
        ensures
            r.msa_token() is None,
    {
        WUProtocol { msa_user_token: None }
    }
}

impl WUProtocol {
    /// The MSA user token, as plain text.
    pub closed spec fn msa_token(&self) -> Option<Seq<char>> {
        opt_string_view(self.msa_user_token)
    }

    pub fn set_msa_user_token(&mut self, token: String)
        ensures
            final(self).msa_token() == Some(token@),
    {
        self.msa_user_token = Some(token);
    }

    /// The endpoint that download requests are sent to.
    pub fn download_url(&self) -> (r: &'static str)
        ensures
            r@ == SECURED_URL@,
    {
        SECURED_URL
    }

    /// The download request for one update revision, stamped with the current
    /// time and that time five minutes later, in RFC 3339. The only error is an
    /// instant that RFC 3339 cannot write.
    pub fn build_download_request(&self, update_identity: &str, revision_number: &str) -> (r: Result<
        String,
    >)
        ensures
            r matches Ok(s) ==> exists|t: i128|
                #![trigger rfc3339_text(t)]
                {
                    &&& i64::MIN as int * 1_000_000_000 <= t <= i64::MAX as int * 1_000_000_000
                        + 999_999_999
                    &&& rfc3339_text(t) matches Some(created) && rfc3339_text(
                        (t + REQUEST_LIFETIME_NANOS) as i128,
                    ) matches Some(expires) && s@ == download_request_xml(
                        created,
                        expires,
                        wu_tickets_xml(self.msa_token()),
                        update_identity@,
                        revision_number@,
                    )
                },
            r matches Err(e) ==> e is TimeFormat,
            exists|t: i128|
                #![trigger request_at_instant(t, self.msa_token(), update_identity@, revision_number@)]
                {
                    &&& clock_instant(t as int)
                    &&& match r {
                        Ok(s) => request_at_instant(
                            t,
                            self.msa_token(),
                            update_identity@,
                            revision_number@,
                        ) == Some(s@),
                        Err(_) => request_at_instant(
                            t,
                            self.msa_token(),
                            update_identity@,
                            revision_number@,
                        ) is None,
                    }
                },
    {
        let now = unix_nanos_now();
        self.build_download_request_at_instant(now, update_identity, revision_number)
    }

    /// The download request stamped at the instant `unix_nanos` (nanoseconds
    /// since the Unix epoch): created then and expiring a request lifetime later.
    /// It fails, with the time-format error, exactly when one of the two stamps
    /// cannot be written in RFC 3339.
    pub fn build_download_request_at_instant(
        &self,
        unix_nanos: i128,
        update_identity: &str,
        revision_number: &str,
    ) -> (r: Result<String>)
        requires
            unix_nanos <= i128::MAX - REQUEST_LIFETIME_NANOS,
        ensures
            match request_at_instant(unix_nanos, self.msa_token(), update_identity@, revision_number@) {
                Some(s) => r matches Ok(x) && x@ == s,
                None => r matches Err(e) && e is TimeFormat,
            },
    {
        let created = match format_rfc3339(unix_nanos) {
            Ok(s) => s,
            Err(e) => return Err(CoreError::TimeFormat(e)),
        };
        let expires = match format_rfc3339(unix_nanos + REQUEST_LIFETIME_NANOS) {
            Ok(s) => s,
            Err(e) => return Err(CoreError::TimeFormat(e)),
        };
        let r = self.build_download_request_at(
            created.as_str(),
            expires.as_str(),
            update_identity,
            revision_number,
        );
        Ok(r)
    }

    /// The download request for one update revision with the given timestamps.
    pub fn build_download_request_at(
        &self,
        created: &str,
        expires: &str,
        update_identity: &str,
        revision_number: &str,
    ) -> (r: String)
        ensures
            r@ == download_request_xml(
                created@,
                expires@,
                wu_tickets_xml(self.msa_token()),
                update_identity@,
                revision_number@,
            ),
    {
        let tickets_string = self.build_wu_tickets();
        let tickets = tickets_string.as_str();
        let mut request = String::from_str(REQUEST_SEGMENT_0);
        request.append(ADDRESSING_NS);
        request.append(REQUEST_SEGMENT_1);
        request.append(SOAP_NS);
        request.append(REQUEST_SEGMENT_2);
        request.append(WUCLIENT_NS);
        request.append(REQUEST_SEGMENT_3);
        request.append(SECURED_URL);
        request.append(REQUEST_SEGMENT_4);
        request.append(SECEXT_NS);
        request.append(REQUEST_SEGMENT_5);
        request.append(SECUTIL_NS);
        request.append(REQUEST_SEGMENT_6);
        request.append(created);
        request.append(REQUEST_SEGMENT_7);
        request.append(expires);
        request.append(REQUEST_SEGMENT_8);
        request.append(tickets);
        request.append(REQUEST_SEGMENT_9);
        request.append(WUCLIENT_NS);
        request.append(REQUEST_SEGMENT_10);
        request.append(update_identity);
        request.append(REQUEST_SEGMENT_11);
        request.append(revision_number);
        request.append(REQUEST_SEGMENT_12);
        request.append(DEVICE_ATTRIBUTES_XML);
        request.append(REQUEST_SEGMENT_13);
        request
    }

    /// Reads the file urls out of a `GetExtendedUpdateInfo2` response.
    pub fn extract_download_response_urls(xml: &str) -> (r: Result<Vec<String>>)
        ensures
            match xml_document_nodes(xml@) {
                None => r matches Err(CoreError::Xml(_)),
                Some(nodes) => r matches Ok(urls) && strings_view(urls@) == response_urls(nodes),
            },
    {
        match parse_xml_nodes(xml) {
            Ok(nodes) => Ok(download_urls_from_nodes(&nodes)),
            Err(e) => Err(CoreError::Xml(e)),
        }
    }

    /// The Windows Update tickets token of the request.
    pub fn build_wu_tickets(&self) -> (r: String)
        ensures
            r@ == wu_tickets_xml(self.msa_token()),
    {
        let mut tickets = String::from_str(TICKETS_OPEN_0);
        tickets.append(SECUTIL_NS);
        tickets.append(TICKETS_OPEN_1);
        tickets.append(WUWS_NS);
        tickets.append(TICKETS_OPEN_2);
        let ghost head = tickets@;
        match &self.msa_user_token {
            Some(token) => {
                tickets.append(MSA_TICKET_OPEN);
                tickets.append(token.as_str());
                tickets.append(MSA_TICKET_CLOSE);
                assert(tickets@ =~= head + (MSA_TICKET_OPEN@ + token@ + MSA_TICKET_CLOSE@));
            },
            None => {
                assert(tickets@ =~= head + Seq::<char>::empty());
            },
        }
        tickets.append(AAD_TICKET);
        tickets.append(TICKETS_CLOSE);
        tickets
    }
}

/// The endpoint of the unsecured client web service.
pub fn default_url() -> (r: &'static str)
    ensures
        r@ == DEFAULT_URL@,
{
    DEFAULT_URL
}

/// Once a user token is set, the tickets token carries it.
pub proof fn lemma_token_reaches_tickets(token: Seq<char>)
    ensures
        contains_seq(wu_tickets_xml(Some(token)), token),
{
    let head = TICKETS_OPEN_0@ + SECUTIL_NS@ + TICKETS_OPEN_1@ + WUWS_NS@ + TICKETS_OPEN_2@
        + MSA_TICKET_OPEN@;
    let tail = MSA_TICKET_CLOSE@ + AAD_TICKET@ + TICKETS_CLOSE@;
    let t = wu_tickets_xml(Some(token));
    assert(t =~= head + token + tail);
    assert(t.subrange(head.len() as int, (head.len() + token.len()) as int) =~= token);
    assert(occurs_at(t, token, head.len() as int));
}

} // verus!
