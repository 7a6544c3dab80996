use mclauncher_core::{
    appx_download_link, default_url, download_urls_from_nodes, msixvc_download_url,
    select_package_url, CoreError, WUProtocol, XmlNode,
};

const SECURED_URL: &str = "https://fe3.delivery.mp.microsoft.com/ClientWebService/client.asmx/secured";

const SOAP_NS: &str = "http://www.w3.org/2003/05/soap-envelope";
const ADDRESSING_NS: &str = "http://www.w3.org/2005/08/addressing";
const SECEXT_NS: &str = "http://docs.oasis-open.org/wss/2004/01/oasis-200401-wss-wssecurity-secext-1.0.xsd";
const SECUTIL_NS: &str = "http://docs.oasis-open.org/wss/2004/01/oasis-200401-wss-wssecurity-utility-1.0.xsd";
const WUWS_NS: &str = "http://schemas.microsoft.com/msus/2014/10/WindowsUpdateAuthorization";
const WUCLIENT_NS: &str = "http://www.microsoft.com/SoftwareDistribution/Server/ClientWebService";

const DEVICE_ATTRIBUTES: &str = "E:BranchReadinessLevel=CBB&DchuNvidiaGrfxExists=1&ProcessorIdentifier=Intel64%20Family%206%20Model%2063%20Stepping%202&CurrentBranch=rs4_release&DataVer_RS5=1942&FlightRing=Retail&AttrDataVer=57&InstallLanguage=en-US&DchuAmdGrfxExists=1&OSUILocale=en-US&InstallationType=Client&FlightingBranchName=&Version_RS5=10&UpgEx_RS5=Green&GStatus_RS5=2&OSSkuId=48&App=WU&InstallDate=1529700913&ProcessorManufacturer=GenuineIntel&AppVer=10.0.17134.471&OSArchitecture=AMD64&UpdateManagementGroup=2&IsDeviceRetailDemo=0&HidOverGattReg=C%3A%5CWINDOWS%5CSystem32%5CDriverStore%5CFileRepository%5Chidbthle.inf_amd64_467f181075371c89%5CMicrosoft.Bluetooth.Profiles.HidOverGatt.dll&IsFlightingEnabled=0&DchuIntelGrfxExists=1&TelemetryLevel=1&DefaultUserRegion=244&DeferFeatureUpdatePeriodInDays=365&Bios=Unknown&WuClientVer=10.0.17134.471&PausedFeatureStatus=1&Steam=URL%3Asteam%20protocol&Free=8to16&OSVersion=10.0.17134.472&DeviceFamily=Windows.Desktop";


fn expected_request(created: &str, expires: &str, tickets: &str, update_identity: &str, revision_number: &str) -> String {
    format!(
            r#"<s:Envelope xmlns:a="{addressing}" xmlns:s="{soap}">
  <s:Header>
    <a:Action s:mustUnderstand="1">{wuclient}/GetExtendedUpdateInfo2</a:Action>
    <a:MessageID>urn:uuid:5754a03d-d8d5-489f-b24d-efc31b3fd32d</a:MessageID>
    <a:To s:mustUnderstand="1">{url}</a:To>
    <o:Security s:mustUnderstand="1" xmlns:o="{secext}">
      <wsu:Timestamp xmlns:wsu="{secutil}">
        <wsu:Created>{created}</wsu:Created>
        <wsu:Expires>{expires}</wsu:Expires>
      </wsu:Timestamp>
      {tickets}
    </o:Security>
  </s:Header>
  <s:Body>
    <GetExtendedUpdateInfo2 xmlns="{wuclient}">
      <updateIDs>
        <UpdateIdentity>
          <UpdateID>{update_identity}</UpdateID>
          <RevisionNumber>{revision_number}</RevisionNumber>
        </UpdateIdentity>
      </updateIDs>
      <infoTypes>
        <XmlUpdateFragmentType>FileUrl</XmlUpdateFragmentType>
      </infoTypes>
      <deviceAttributes>{device_attributes}</deviceAttributes>
    </GetExtendedUpdateInfo2>
  </s:Body>
</s:Envelope>"#,
            addressing = ADDRESSING_NS,
            soap = SOAP_NS,
            wuclient = WUCLIENT_NS,
            url = SECURED_URL,
            secext = SECEXT_NS,
            secutil = SECUTIL_NS,
            created = created,
            expires = expires,
            tickets = tickets,
            update_identity = update_identity,
            revision_number = revision_number,
            device_attributes = DEVICE_ATTRIBUTES.replace('&', "&amp;"),
        )
}

fn expected_tickets(token: Option<&str>) -> String {
    let mut tickets = String::new();
    tickets.push_str(&format!(
        "<wuws:WindowsUpdateTicketsToken wsu:id=\"ClientMSA\" xmlns:wsu=\"{secutil}\" xmlns:wuws=\"{wuws}\">",
        secutil = SECUTIL_NS,
        wuws = WUWS_NS
    ));
    if let Some(token) = token {
        tickets.push_str(&format!(
            "<TicketType Name=\"MSA\" Version=\"1.0\" Policy=\"MBI_SSL\"><User>{}</User></TicketType>",
            token
        ));
    }
    tickets.push_str("<TicketType Name=\"AAD\" Version=\"1.0\" Policy=\"MBI_SSL\"></TicketType>");
    tickets.push_str("</wuws:WindowsUpdateTicketsToken>");
    tickets
}

#[test]
fn tickets_without_token_hold_only_the_aad_ticket() {
    let p = WUProtocol::default();
    assert_eq!(p.build_wu_tickets(), expected_tickets(None));
    assert!(!p.build_wu_tickets().contains("Name=\"MSA\""));
}

#[test]
fn tickets_carry_the_token_once_set() {
    let mut p = WUProtocol::default();
    p.set_msa_user_token("tok-123".to_string());
    let t = p.build_wu_tickets();
    assert_eq!(t, expected_tickets(Some("tok-123")));
    assert!(t.contains("<User>tok-123</User>"));
}

#[test]
fn download_request_matches_the_soap_template() {
    let mut p = WUProtocol::default();
    p.set_msa_user_token("abc".to_string());
    let got = p.build_download_request_at(
        "2024-01-01T00:00:00Z",
        "2024-01-01T00:05:00Z",
        "update-id",
        "1",
    );
    let want = expected_request(
        "2024-01-01T00:00:00Z",
        "2024-01-01T00:05:00Z",
        &expected_tickets(Some("abc")),
        "update-id",
        "1",
    );
    assert_eq!(got, want);
}

#[test]
fn download_request_is_stamped_with_rfc3339_times() {
    let p = WUProtocol::default();
    let req = p.build_download_request("uid-7", "3").expect("current time formats");
    let created_start = req.find("<wsu:Created>").unwrap() + "<wsu:Created>".len();
    let created_end = req.find("</wsu:Created>").unwrap();
    let created = &req[created_start..created_end];
    assert!(created.len() >= 20);
    assert!(created.ends_with('Z'));
    assert_eq!(&created[4..5], "-");
    assert_eq!(&created[10..11], "T");
    let expires_start = req.find("<wsu:Expires>").unwrap() + "<wsu:Expires>".len();
    let expires_end = req.find("</wsu:Expires>").unwrap();
    let expires = &req[expires_start..expires_end];
    assert!(expires > created);
    let want = expected_request(created, expires, &expected_tickets(None), "uid-7", "3");
    assert_eq!(req, want);
}

#[test]
fn download_request_is_well_formed_xml() {
    let p = WUProtocol::default();
    let req = p.build_download_request_at("c", "e", "u", "1");
    assert!(req.starts_with("<s:Envelope xmlns:a=\"http://www.w3.org/2005/08/addressing\""));
    let doc = roxmltree::Document::parse(&req).unwrap();
    let attributes = doc
        .descendants()
        .find(|n| n.has_tag_name("deviceAttributes"))
        .and_then(|n| n.text())
        .unwrap();
    assert_eq!(attributes, DEVICE_ATTRIBUTES);
    let full = p.build_download_request("u", "1").unwrap();
    assert!(roxmltree::Document::parse(&full).is_ok());
}

#[test]
fn endpoints() {
    let p = WUProtocol::default();
    assert_eq!(p.download_url(), SECURED_URL);
    assert_eq!(
        default_url(),
        "https://fe3.delivery.mp.microsoft.com/ClientWebService/client.asmx"
    );
}

#[test]
fn response_urls_come_from_file_locations() {
    let xml = r#"<Envelope><Body><FileLocation><Url>http://tlu.dl.delivery.mp.microsoft.com/a.appx</Url></FileLocation><Other><Url>http://elsewhere/b</Url></Other><FileLocation><Url>http://x/c</Url><Url></Url></FileLocation></Body></Envelope>"#;
    let urls = WUProtocol::extract_download_response_urls(xml).unwrap();
    assert_eq!(
        urls,
        vec![
            "http://tlu.dl.delivery.mp.microsoft.com/a.appx".to_string(),
            "http://x/c".to_string()
        ]
    );
}

#[test]
fn a_root_url_element_counts() {
    let urls = WUProtocol::extract_download_response_urls("<Url>http://root/u</Url>").unwrap();
    assert_eq!(urls, vec!["http://root/u".to_string()]);
}

#[test]
fn malformed_xml_is_an_xml_error() {
    let r = WUProtocol::extract_download_response_urls("<a><b></a>");
    assert!(matches!(r, Err(CoreError::Xml(_))));
}

#[test]
fn url_selection_over_plain_nodes() {
    let node = |el: bool, tag: &str, parent: Option<&str>, text: Option<&str>| XmlNode {
        is_element: el,
        tag_name: tag.to_string(),
        parent_tag: parent.map(|p| p.to_string()),
        text: text.map(|t| t.to_string()),
    };
    let nodes = vec![
        node(false, "", None, Some("stray")),
        node(true, "Url", Some("FileLocation"), Some("u1")),
        node(true, "Url", Some("Wrong"), Some("u2")),
        node(true, "Uri", Some("FileLocation"), Some("u3")),
        node(true, "Url", None, Some("u4")),
        node(true, "Url", Some("FileLocation"), None),
    ];
    assert_eq!(download_urls_from_nodes(&nodes), vec!["u1".to_string(), "u4".to_string()]);
}

#[test]
fn the_package_host_url_is_chosen() {
    let urls = vec![
        "https://other.example/x".to_string(),
        "http://tlu.dl.delivery.mp.microsoft.com/first".to_string(),
        "http://tlu.dl.delivery.mp.microsoft.com/second".to_string(),
    ];
    assert_eq!(
        select_package_url(&urls),
        Some("http://tlu.dl.delivery.mp.microsoft.com/first".to_string())
    );
    assert_eq!(
        appx_download_link(&urls).unwrap(),
        "http://tlu.dl.delivery.mp.microsoft.com/first"
    );
}

#[test]
fn no_package_host_url_is_an_error() {
    let urls = vec!["https://tlu.dl.delivery.mp.microsoft.com/https-is-not-it".to_string()];
    assert_eq!(select_package_url(&urls), None);
    assert!(matches!(appx_download_link(&urls), Err(CoreError::DownloadUrlNotFound)));
}

#[test]
fn msixvc_uses_the_first_url() {
    let urls = vec!["u1".to_string(), "u2".to_string()];
    assert_eq!(msixvc_download_url(&urls).unwrap(), "u1");
    assert!(matches!(msixvc_download_url(&Vec::new()), Err(CoreError::NoDownloadUrls)));
}
