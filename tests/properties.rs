use nfse_bh_rust::algorithms::CanonicalizationAlgorithm;
use nfse_bh_rust::algorithms::DigestAlgorithm;
use nfse_bh_rust::algorithms::SignatureAlgorithm;
use nfse_bh_rust::algorithms::SigningError;
use nfse_bh_rust::curl::Request;
use nfse_bh_rust::curl::RequestMethod;
use nfse_bh_rust::lote_rps::LoteRps;
use nfse_bh_rust::money::parse_decimal;
use nfse_bh_rust::money::service_amounts;
use nfse_bh_rust::protocolo::Protocolo;
use nfse_bh_rust::rps::Rps;
use nfse_bh_rust::rps::RpsFields;
use nfse_bh_rust::yaml::YamlField;
use nfse_bh_rust::signature::XmlSignature;
use nfse_bh_rust::utils::generate_random_rps;
use nfse_bh_rust::utils::recepcionar_lote_rps_request_wrapper;
use nfse_bh_rust::utils::trim_x509_certificate;
use nfse_bh_rust::xml::xml_events_to_xml_string;
use nfse_bh_rust::xml::XmlEvent;
use nfse_bh_rust::xml::is_well_formed_document;
use nfse_bh_rust::nfse::access_key;
use nfse_bh_rust::utils::rps_id_from_digits;
use nfse_bh_rust::rps::record_id;

fn echo_signature() -> XmlSignature {
    XmlSignature::new(
        CanonicalizationAlgorithm::NoOp,
        SignatureAlgorithm::Echo(String::from("the_signature")),
        DigestAlgorithm::Echo(String::from("the_digest")),
        String::from("the_certificate"),
    )
}

fn sha1_signature() -> XmlSignature {
    XmlSignature::new(
        CanonicalizationAlgorithm::ExclusiveXMLCanonicalization,
        SignatureAlgorithm::Echo(String::from("the_signature")),
        DigestAlgorithm::Sha1,
        String::from("the_certificate"),
    )
}

const ONE_RECORD: &str = "
cnpj: cnpj_prestador
inscricao_municipal: inscricao_municipal_prestador
codigo_municipio: codigo_municipio_prestador
notas_fiscais:
  - id: 1234
    nome_arquivo: ACME_1234
    competencia: data_emissao
    natureza_operacao: natureza_operacao
    regime_especial_tributacao: regime_especial_tributacao
    optante_simples_nacional: optante_simples_nacional
    incentivador_cultural: incentivador_cultural
    item_lista_servico: item_lista_servico
    codigo_tributacao_municipio: codigo_tributacao_municipio
    discriminacao: discriminacao
    valor_servicos: 1000.00
    aliquota_iss: 0.02
    razao_social: razao_social_tomador
    logradouro: logradouro_tomador
    numero: numero_tomador
    bairro: bairro_tomador
    codigo_municipio: codigo_municipio_tomador
    uf: uf_tomador
";

fn lote_from(text: &str) -> LoteRps {
    let yaml: serde_yaml::Mapping = serde_yaml::from_str(text).unwrap();
    LoteRps::from_yaml(&yaml).unwrap()
}

fn payload_of(lote: &LoteRps) -> String {
    xml_events_to_xml_string(&lote.lote_rps_xml_events())
}

#[test]
fn tax_at_two_percent_of_one_thousand() {
    let (gross, tax, net) = service_amounts("1000.00", &Some(String::from("0.02")));
    assert_eq!(gross, "1000.00");
    assert_eq!(tax, Some(String::from("20.00")));
    assert_eq!(net, "980.00");
}

#[test]
fn record_renders_withheld_tax_and_net() {
    let lote = lote_from(ONE_RECORD);
    let text = payload_of(&lote);
    assert!(text.contains("<ValorServicos>1000.00</ValorServicos>"));
    assert!(text.contains("<ValorIss>20.00</ValorIss>"));
    assert!(text.contains("<ValorIssRetido>20.00</ValorIssRetido>"));
    assert!(text.contains("<ValorLiquidoNfse>980.00</ValorLiquidoNfse>"));
    assert!(text.contains("<IssRetido>1</IssRetido>"));
}

#[test]
fn amounts_without_rate() {
    let (gross, tax, net) = service_amounts("800", &None);
    assert_eq!(gross, "800.00");
    assert_eq!(tax, None);
    assert_eq!(net, "800.00");
}

#[test]
fn amounts_round_half_up() {
    let (gross, tax, net) = service_amounts("0.05", &Some(String::from("0.5")));
    assert_eq!(gross, "0.05");
    assert_eq!(tax, Some(String::from("0.03")));
    assert_eq!(net, "0.02");
    let (gross, _, _) = service_amounts("12.345", &None);
    assert_eq!(gross, "12.35");
}

#[test]
fn amounts_with_rate_above_one() {
    let (_, tax, net) = service_amounts("10", &Some(String::from("1.5")));
    assert_eq!(tax, Some(String::from("15.00")));
    assert_eq!(net, "-5.00");
}

#[test]
fn decimal_text_is_parsed() {
    assert_eq!(parse_decimal("12.50"), Some((1250, 2)));
    assert_eq!(parse_decimal("7"), Some((7, 0)));
    assert_eq!(parse_decimal("abc"), None);
    assert_eq!(parse_decimal("1."), Some((1, 0)));
    assert_eq!(parse_decimal(".5"), Some((5, 1)));
    assert_eq!(parse_decimal("."), None);
    assert_eq!(parse_decimal("1.2.3"), None);
    assert_eq!(parse_decimal(""), None);
    assert_eq!(parse_decimal("999999999999999999"), Some((999999999999999999, 0)));
    assert_eq!(parse_decimal("1000000000000000000"), None);
}

#[test]
fn sha1_digest_is_base64_of_hash() {
    let d = DigestAlgorithm::Sha1;
    assert_eq!(d.run(String::from("abc")), "qZk+NkcGgWq6PiVxeFDCbJzQ2J0=");
    assert_eq!(d.run(String::new()), "2jmj7l5rSw0yVb/vlWAYkK/YBwk=");
}

#[test]
fn digest_is_deterministic() {
    let d = DigestAlgorithm::Sha1;
    let a = d.run(String::from("<Payload>To Sign</Payload>"));
    let b = d.run(String::from("<Payload>To Sign</Payload>"));
    assert_eq!(a, b);
    let e = DigestAlgorithm::Echo(String::from("x"));
    assert_eq!(e.run(String::from("p")), e.run(String::from("p")));
}

#[test]
fn algorithm_identifiers() {
    assert_eq!(
        CanonicalizationAlgorithm::ExclusiveXMLCanonicalization.as_str(),
        "http://www.w3.org/2001/10/xml-exc-c14n#"
    );
    assert_eq!(CanonicalizationAlgorithm::NoOp.as_str(), "noop-c14n");
    assert_eq!(DigestAlgorithm::Sha1.as_str(), "http://www.w3.org/2000/09/xmldsig#sha1");
    assert_eq!(
        SignatureAlgorithm::Echo(String::new()).as_str(),
        "echo-signature"
    );
    assert_eq!(
        CanonicalizationAlgorithm::NoOp.run(String::from("<a>b</a>")),
        "<a>b</a>"
    );
}

#[test]
fn signed_info_holds_the_digest_once() {
    let mut s = sha1_signature();
    s.load(String::from("#x"), String::from("abc"));
    s.sign().unwrap();
    let text = xml_events_to_xml_string(&s.signed_info_xml_events(true));
    assert!(text.starts_with(r#"<SignedInfo xmlns="http://www.w3.org/2000/09/xmldsig#">"#));
    assert_eq!(text.matches("<DigestValue>").count(), 1);
    assert!(text.contains("<DigestValue>qZk+NkcGgWq6PiVxeFDCbJzQ2J0=</DigestValue>"));
    assert!(text.contains(r#"<DigestMethod Algorithm="http://www.w3.org/2000/09/xmldsig#sha1"/>"#));
    assert!(text.contains(
        r#"<CanonicalizationMethod Algorithm="http://www.w3.org/2001/10/xml-exc-c14n#"/>"#
    ));
    let nested = xml_events_to_xml_string(&s.signed_info_xml_events(false));
    assert!(nested.starts_with("<SignedInfo><CanonicalizationMethod"));
}

#[test]
fn signing_order_changes_batch_digest() {
    let mut before = lote_from(ONE_RECORD);
    let mut after = lote_from(ONE_RECORD);
    after.sign_rpses(&sha1_signature()).unwrap();
    let p_before = payload_of(&before);
    let p_after = payload_of(&after);
    assert_ne!(p_before, p_after);
    let d = DigestAlgorithm::Sha1;
    assert_ne!(d.run(p_before), d.run(p_after));
    before.sign(sha1_signature()).unwrap();
    after.sign(sha1_signature()).unwrap();
    let a = xml_events_to_xml_string(&before.enviar_lote_rps_envio_events());
    let b = xml_events_to_xml_string(&after.enviar_lote_rps_envio_events());
    let digest_a = a.rsplit("<DigestValue>").next().unwrap();
    let digest_b = b.rsplit("<DigestValue>").next().unwrap();
    assert_ne!(digest_a, digest_b);
}

#[test]
fn batch_payload_depends_on_one_character() {
    let a = lote_from(ONE_RECORD);
    let b = lote_from(&ONE_RECORD.replace("numero_tomador", "numero_tomadoR"));
    let pa = payload_of(&a);
    let pb = payload_of(&b);
    assert_ne!(pa, pb);
    let d = DigestAlgorithm::Sha1;
    assert_ne!(d.run(pa), d.run(pb));
}

#[test]
fn signed_records_sit_inside_the_batch() {
    let mut lote = lote_from(ONE_RECORD);
    lote.sign_rpses(&echo_signature()).unwrap();
    lote.sign(echo_signature()).unwrap();
    let text = xml_events_to_xml_string(&lote.enviar_lote_rps_envio_events());
    assert!(text.contains(r##"<Reference URI="#1234">"##));
    assert!(text.contains(r##"<Reference URI="#lote">"##));
    assert!(text.ends_with("</Signature></EnviarLoteRpsEnvio>"));
    assert!(text.contains("</Signature></Rps></ListaRps></LoteRps><Signature"));
}

#[test]
fn empty_batch_counts_zero() {
    let lote = LoteRps::new(Vec::new(), String::from("c"), String::from("i"));
    let text = payload_of(&lote);
    assert!(text.contains("<QuantidadeRps>0</QuantidadeRps><ListaRps></ListaRps>"));
}

#[test]
fn text_and_attributes_are_escaped() {
    let events = vec![
        XmlEvent::Start(
            String::from("a"),
            vec![(String::from("k"), String::from("x\"<y"))],
        ),
        XmlEvent::Text(String::from("1 < 2 & 3 > 2")),
        XmlEvent::End(String::from("a")),
    ];
    assert_eq!(
        xml_events_to_xml_string(&events),
        "<a k=\"x&quot;&lt;y\">1 &lt; 2 &amp; 3 &gt; 2</a>"
    );
}

#[test]
fn attributes_keep_insertion_order() {
    let events = vec![
        XmlEvent::Start(
            String::from("e"),
            vec![
                (String::from("z"), String::from("1")),
                (String::from("a"), String::from("2")),
            ],
        ),
        XmlEvent::End(String::from("e")),
    ];
    assert_eq!(xml_events_to_xml_string(&events), "<e z=\"1\" a=\"2\"></e>");
    assert_eq!(xml_events_to_xml_string(&[]), "");
}

#[test]
fn missing_field_is_named() {
    let yaml: serde_yaml::Value = serde_yaml::from_str("id: 1\nnome_arquivo: f\ncompetencia: x\n").unwrap();
    let r = Rps::from_yaml(yaml, String::new(), String::new(), String::new());
    assert_eq!(r.err(), Some(String::from("bad yaml input: natureza_operacao")));
}

#[test]
fn non_decimal_amount_is_rejected() {
    let text = ONE_RECORD.replace("valor_servicos: 1000.00", "valor_servicos: lots");
    let yaml: serde_yaml::Mapping = serde_yaml::from_str(&text).unwrap();
    let r = LoteRps::from_yaml(&yaml);
    assert_eq!(
        r.err(),
        Some(String::from("error in notas_fiscais.0: bad yaml input: valor_servicos"))
    );
}

#[test]
fn record_without_mapping_is_rejected() {
    let yaml: serde_yaml::Value = serde_yaml::from_str("- 1\n- 2\n").unwrap();
    let r = Rps::from_yaml(yaml, String::new(), String::new(), String::new());
    assert_eq!(r.err(), Some(String::from("bad yaml input")));
}

#[test]
fn missing_record_list_is_rejected() {
    let yaml: serde_yaml::Mapping =
        serde_yaml::from_str("cnpj: 1\ninscricao_municipal: 2\ncodigo_municipio: 3\n").unwrap();
    let r = LoteRps::from_yaml(&yaml);
    assert_eq!(r.err(), Some(String::from("bad yaml input: notas_fiscais")));
}

#[test]
fn generated_identifier_has_twelve_digits() {
    let id = generate_random_rps();
    assert_eq!(id.len(), 12);
    assert!(id.chars().all(|c| c.is_ascii_digit()));
}

#[test]
fn record_without_id_gets_one() {
    let text = ONE_RECORD.replace("  - id: 1234\n    nome_arquivo", "  - nome_arquivo");
    let lote = lote_from(&text);
    let fragment = xml_events_to_xml_string(&lote.get_rpses()[0].inf_rps_xml_events(false));
    assert!(fragment.starts_with("<InfRps Id=\""));
    let id = &fragment[12..24];
    assert!(id.chars().all(|c| c.is_ascii_digit()));
}

#[test]
fn certificate_boundaries_are_dropped() {
    let pem = "-----BEGIN CERTIFICATE-----\nABC\nDEF\r\n-----END CERTIFICATE-----\n";
    assert_eq!(trim_x509_certificate(pem), "ABCDEF");
    assert_eq!(trim_x509_certificate("XY"), "XY");
    assert_eq!(trim_x509_certificate(""), "");
}

#[test]
fn envelope_wraps_content() {
    let r = recepcionar_lote_rps_request_wrapper("<x/>");
    assert!(r.starts_with("<soapenv:Envelope"));
    assert!(r.contains("<nfseDadosMsg><![CDATA[<?xml version=\"1.0\" encoding=\"UTF-8\"?><x/>]]></nfseDadosMsg>"));
    assert!(r.ends_with("</soapenv:Envelope>"));
}

#[test]
fn request_headers_are_set_and_removed() {
    let req = Request::new()
        .set_url(String::from("http://example/foo"))
        .set_header(String::from("foo"), Some(String::from("bar")))
        .set_header(String::from("a"), Some(String::from("1")))
        .set_header(String::from("foo"), Some(String::from("baz")))
        .set_header(String::from("a"), None)
        .set_method(RequestMethod::POST(String::from("example post data")));
    assert_eq!(req.url(), "http://example/foo");
    assert_eq!(req.headers(), &vec![(String::from("foo"), String::from("baz"))]);
    assert!(matches!(req.method(), RequestMethod::POST(b) if b == "example post data"));
    assert_eq!(req.certificate_path(), &None);
}

#[test]
fn short_key_cannot_sign() {
    let mut rng = rand::thread_rng();
    let key = rsa::RsaPrivateKey::new(&mut rng, 256).unwrap();
    let alg = SignatureAlgorithm::RsaSha1(key);
    assert_eq!(alg.run(String::from("x")), Err(SigningError::KeyRejected));
}

#[test]
fn rsa_signature_is_base64() {
    let mut rng = rand::thread_rng();
    let key = rsa::RsaPrivateKey::new(&mut rng, 512).unwrap();
    let alg = SignatureAlgorithm::RsaSha1(key);
    let a = alg.run(String::from("x")).unwrap();
    assert_eq!(a.len(), 88);
    assert_eq!(alg.run(String::from("x")).unwrap(), a);
    assert_ne!(alg.run(String::from("y")).unwrap(), a);
}

fn read_back_tags(text: &str) -> Vec<String> {
    let mut out = Vec::new();
    let mut rest = text;
    while let Some(i) = rest.find('<') {
        let j = i + rest[i..].find('>').unwrap();
        let inner = &rest[i + 1..j];
        out.push(inner.split(' ').next().unwrap().to_string());
        rest = &rest[j + 1..];
    }
    out
}

fn tags_of(events: &[XmlEvent]) -> Vec<String> {
    events
        .iter()
        .filter_map(|e| match e {
            XmlEvent::Start(n, _) => Some(n.clone()),
            XmlEvent::End(n) => Some(format!("/{}", n)),
            XmlEvent::Empty(n, _) => Some(n.clone()),
            XmlEvent::Text(_) => None,
        })
        .collect()
}

#[test]
fn structure_survives_serialization() {
    let mut s = echo_signature();
    s.load(String::from("#URI"), String::from("<Payload a=\"1\">To Sign</Payload>"));
    s.sign().unwrap();
    let events = s.signature_xml_events();
    let text = xml_events_to_xml_string(&events);
    assert_eq!(read_back_tags(&text), tags_of(&events));
    let mut lote = lote_from(ONE_RECORD);
    lote.sign_rpses(&echo_signature()).unwrap();
    let events = lote.enviar_lote_rps_envio_events();
    let text = xml_events_to_xml_string(&events);
    assert_eq!(read_back_tags(&text), tags_of(&events));
}

fn text(s: &str) -> YamlField {
    YamlField::Text(String::from(s))
}

fn record_fields() -> RpsFields {
    RpsFields {
        nome_arquivo: text("ACME_77"),
        competencia: text("2024-01"),
        natureza_operacao: YamlField::Number(String::from("1")),
        regime_especial_tributacao: text("r"),
        optante_simples_nacional: text("o"),
        incentivador_cultural: text("i"),
        item_lista_servico: text("l"),
        codigo_tributacao_municipio: text("t"),
        discriminacao: text("d"),
        valor_servicos: YamlField::Number(String::from("800.0")),
        aliquota_iss: YamlField::Number(String::from("0.03")),
        cnpj: YamlField::Missing,
        inscricao_municipal: text("im"),
        razao_social: text("rs"),
        logradouro: text("lg"),
        numero: text("n"),
        complemento: YamlField::Missing,
        bairro: text("b"),
        codigo_municipio: text("cm"),
        uf: text("uf"),
        cep: YamlField::Missing,
    }
}

#[test]
fn record_from_fields() {
    let rps = Rps::from_fields(
        String::from("77"),
        record_fields(),
        String::from("c"),
        String::from("i"),
        String::from("m"),
    )
    .unwrap();
    assert_eq!(rps.nome_arquivo, "ACME_77");
    let fragment = xml_events_to_xml_string(&rps.inf_rps_xml_events(false));
    assert!(fragment.contains("<ValorIss>24.00</ValorIss>"));
    assert!(fragment.contains("<ValorLiquidoNfse>776.00</ValorLiquidoNfse>"));
    assert!(fragment.contains("<Tomador><RazaoSocial>rs</RazaoSocial>"));
    assert!(!fragment.contains("<Cep>"));
    assert_eq!(rps.uniquely_identify(), "rs|d|800.00");
}

#[test]
fn record_fields_first_error_is_named() {
    let mut fields = record_fields();
    fields.competencia = YamlField::Number(String::from("1"));
    fields.uf = YamlField::Missing;
    let r = Rps::from_fields(String::from("1"), fields, String::new(), String::new(), String::new());
    assert_eq!(r.err(), Some(String::from("bad yaml input: competencia")));
    let mut fields = record_fields();
    fields.aliquota_iss = text("2%");
    let r = Rps::from_fields(String::from("1"), fields, String::new(), String::new(), String::new());
    assert_eq!(r.err(), Some(String::from("bad yaml input: aliquota_iss")));
}

#[test]
fn provider_fields_are_checked_in_order() {
    let r = Protocolo::from_fields(YamlField::Missing, YamlField::Missing);
    assert_eq!(r.err(), Some(String::from("bad yaml input: cnpj")));
    let r = Protocolo::from_fields(text("1"), YamlField::Other);
    assert_eq!(r.err(), Some(String::from("bad yaml input: inscricao_municipal")));
    let r = LoteRps::from_fields(text("1"), text("2"), text("3"), text("4"));
    assert_eq!(r.err(), Some(String::from("bad yaml input: notas_fiscais")));
    let lote = LoteRps::from_fields(text("1"), text("2"), text("3"), YamlField::List(Vec::new())).unwrap();
    assert_eq!(lote.get_rpses().len(), 0);
}

#[test]
fn missing_file_name_is_rejected() {
    let text = ONE_RECORD.replace("    nome_arquivo: ACME_1234\n", "");
    let yaml: serde_yaml::Mapping = serde_yaml::from_str(&text).unwrap();
    assert_eq!(
        LoteRps::from_yaml(&yaml).err(),
        Some(String::from("error in notas_fiscais.0: bad yaml input: nome_arquivo"))
    );
}

#[test]
fn access_key_is_read_from_the_notes() {
    let key = "12345678901234567890123456789012345678901234567890";
    let xml = format!(
        "<InfNfse><OutrasInformacoes>Chave de acesso no Ambiente de Dados Nacional: {}.</OutrasInformacoes></InfNfse>",
        key
    );
    assert_eq!(access_key(&xml), Ok(String::from(key)));
    let short = xml.replace(key, "123");
    assert_eq!(access_key(&short), Err(String::from("bad size for chave_acesso")));
    assert_eq!(
        access_key("<InfNfse></InfNfse>"),
        Err(String::from("can not find chave_acesso"))
    );
}

#[test]
fn invoice_is_matched_to_its_record() {
    let lote = lote_from(ONE_RECORD);
    let ui = lote.get_rpses()[0].uniquely_identify();
    assert_eq!(ui, "razao_social_tomador|discriminacao|1000.00");
    assert_eq!(lote.file_name_for(&ui), Some(String::from("ACME_1234")));
    assert_eq!(lote.file_name_for(&String::from("x|y|z")), None);
}

#[test]
fn identifier_from_digits() {
    assert_eq!(rps_id_from_digits(&vec![0, 1, 9, 4]), "0194");
    assert_eq!(rps_id_from_digits(&Vec::new()), "");
}

#[test]
fn record_identifier_rules() {
    assert_eq!(record_id(YamlField::Missing, String::from("42")), Ok(String::from("42")));
    assert_eq!(
        record_id(YamlField::Number(String::from("7")), String::new()),
        Ok(String::from("7"))
    );
    assert_eq!(
        record_id(YamlField::Other, String::new()),
        Err(String::from("bad yaml input: id"))
    );
}

#[test]
fn first_failing_record_is_reported() {
    let lote = lote_from(ONE_RECORD);
    let records: Vec<Result<Rps, String>> = vec![
        Err(String::from("first")),
        Err(String::from("second")),
    ];
    let r = LoteRps::from_records(records, String::new(), String::new());
    assert_eq!(r.err(), Some(String::from("error in notas_fiscais.0: first")));
    let empty = LoteRps::from_records(Vec::new(), String::from("c"), String::from("i")).unwrap();
    assert_eq!(empty.get_rpses().len(), 0);
    assert_eq!(lote.get_rpses().len(), 1);
}

#[test]
fn malformed_documents_are_told_apart() {
    let s = |n: &str| XmlEvent::Start(String::from(n), Vec::new());
    let e = |n: &str| XmlEvent::End(String::from(n));
    assert!(is_well_formed_document(&[s("a"), s("b"), e("b"), e("a")]));
    assert!(is_well_formed_document(&[]));
    assert!(!is_well_formed_document(&[s("a"), s("b"), e("a"), e("b")]));
    assert!(!is_well_formed_document(&[s("a")]));
    assert!(!is_well_formed_document(&[e("a")]));
    let mut sig = echo_signature();
    sig.load(String::from("#x"), String::from("p"));
    sig.sign().unwrap();
    assert!(is_well_formed_document(&sig.signature_xml_events()));
}

#[test]
fn empty_elements_close_themselves() {
    let events = vec![XmlEvent::Empty(
        String::from("e"),
        vec![(String::from("a"), String::from("1"))],
    )];
    assert_eq!(xml_events_to_xml_string(&events), "<e a=\"1\"/>");
}
