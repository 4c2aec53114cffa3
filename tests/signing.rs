use nfse_bh_rust::algorithms::CanonicalizationAlgorithm;
use nfse_bh_rust::algorithms::DigestAlgorithm;
use nfse_bh_rust::algorithms::SignatureAlgorithm;
use nfse_bh_rust::lote_rps::LoteRps;
use nfse_bh_rust::protocolo::Protocolo;
use nfse_bh_rust::rps::Rps;
use nfse_bh_rust::signature::XmlSignature;
use nfse_bh_rust::xml::xml_events_to_xml_string;

fn echo_signature() -> XmlSignature {
    XmlSignature::new(
        CanonicalizationAlgorithm::NoOp,
        SignatureAlgorithm::Echo(String::from("the_signature")),
        DigestAlgorithm::Echo(String::from("the_digest")),
        String::from("the_certificate"),
    )
}

#[test]
fn should_sign_payload() {
    let mut signature = XmlSignature::new(
        CanonicalizationAlgorithm::NoOp,
        SignatureAlgorithm::Echo(String::from("the_signature")),
        DigestAlgorithm::Echo(String::from("the_digest")),
        String::from("the_certificate"),
    );
    signature.load(
        String::from("#URI"),
        String::from("<Payload>To Sign</Payload>"),
    );
    signature.sign().unwrap();
    assert_eq!(
        xml_events_to_xml_string(&signature.signature_xml_events()),
        String::from(
            r##"<Signature xmlns="http://www.w3.org/2000/09/xmldsig#"><SignedInfo><CanonicalizationMethod Algorithm="noop-c14n"/><SignatureMethod Algorithm="echo-signature"/><Reference URI="#URI"><Transforms><Transform Algorithm="noop-c14n"/></Transforms><DigestMethod Algorithm="echo-digest"/><DigestValue>the_digest</DigestValue></Reference></SignedInfo><SignatureValue>the_signature</SignatureValue><KeyInfo><X509Data><X509Certificate>the_certificate</X509Certificate></X509Data></KeyInfo></Signature>"##
        )
    );
}

#[test]
fn should_create_signed_rps() {
    let signature = echo_signature();
    let yaml = serde_yaml::from_str(
        "
id: 1234
nome_arquivo: ACME_1234
competencia: data_emissao
natureza_operacao: natureza_operacao
regime_especial_tributacao: regime_especial_tributacao
optante_simples_nacional: optante_simples_nacional
incentivador_cultural: incentivador_cultural
item_lista_servico: item_lista_servico
codigo_tributacao_municipio: codigo_tributacao_municipio
discriminacao: discriminacao
valor_servicos: 1000.00
aliquota_iss: 0.02
cnpj: cnpj_tomador
inscricao_municipal: inscricao_municipal_tomador
razao_social: razao_social_tomador
logradouro: logradouro_tomador
numero: numero_tomador
complemento: complemento_tomador
bairro: bairro_tomador
codigo_municipio: codigo_municipio_tomador
uf: uf_tomador
cep: cep_tomador
",
    )
    .unwrap();
    let mut rps = Rps::from_yaml(
        yaml,
        String::from("cnpj_prestador"),
        String::from("inscricao_municipal_prestador"),
        String::from("codigo_municipio_prestador"),
    )
    .unwrap();
    rps.sign(signature).unwrap();
    assert_eq!(
        xml_events_to_xml_string(&rps.rps_xml_events(true)),
        String::from(
            r##"<Rps xmlns="http://www.abrasf.org.br/nfse.xsd" versao="1.00"><InfRps Id="1234" versao="1.00"><IdentificacaoRps><Numero>1234</Numero><Serie>1</Serie><Tipo>1</Tipo></IdentificacaoRps><DataEmissao>data_emissao</DataEmissao><NaturezaOperacao>natureza_operacao</NaturezaOperacao><RegimeEspecialTributacao>regime_especial_tributacao</RegimeEspecialTributacao><OptanteSimplesNacional>optante_simples_nacional</OptanteSimplesNacional><IncentivadorCultural>incentivador_cultural</IncentivadorCultural><Status>1</Status><Servico><Valores><ValorServicos>1000.00</ValorServicos><IssRetido>1</IssRetido><ValorIss>20.00</ValorIss><ValorIssRetido>20.00</ValorIssRetido><BaseCalculo>1000.00</BaseCalculo><Aliquota>0.02</Aliquota><ValorLiquidoNfse>980.00</ValorLiquidoNfse></Valores><ItemListaServico>item_lista_servico</ItemListaServico><CodigoTributacaoMunicipio>codigo_tributacao_municipio</CodigoTributacaoMunicipio><Discriminacao>discriminacao</Discriminacao><CodigoMunicipio>codigo_municipio_prestador</CodigoMunicipio></Servico><Prestador><Cnpj>cnpj_prestador</Cnpj><InscricaoMunicipal>inscricao_municipal_prestador</InscricaoMunicipal></Prestador><Tomador><IdentificacaoTomador><CpfCnpj><Cnpj>cnpj_tomador</Cnpj></CpfCnpj><InscricaoMunicipal>inscricao_municipal_tomador</InscricaoMunicipal></IdentificacaoTomador><RazaoSocial>razao_social_tomador</RazaoSocial><Endereco><Endereco>logradouro_tomador</Endereco><Numero>numero_tomador</Numero><Complemento>complemento_tomador</Complemento><Bairro>bairro_tomador</Bairro><CodigoMunicipio>codigo_municipio_tomador</CodigoMunicipio><Uf>uf_tomador</Uf><Cep>cep_tomador</Cep></Endereco></Tomador></InfRps><Signature xmlns="http://www.w3.org/2000/09/xmldsig#"><SignedInfo><CanonicalizationMethod Algorithm="noop-c14n"/><SignatureMethod Algorithm="echo-signature"/><Reference URI="#1234"><Transforms><Transform Algorithm="noop-c14n"/></Transforms><DigestMethod Algorithm="echo-digest"/><DigestValue>the_digest</DigestValue></Reference></SignedInfo><SignatureValue>the_signature</SignatureValue><KeyInfo><X509Data><X509Certificate>the_certificate</X509Certificate></X509Data></KeyInfo></Signature></Rps>"##
        )
    );
}

#[test]
fn should_create_signed_lote_rps() {
    let signature = echo_signature();
    // Each record names the file its issued invoice is saved to, so the
    // records below carry `nome_arquivo`; the documents do not include it.
    let yaml: serde_yaml::Mapping = serde_yaml::from_str(
        "
cnpj: cnpj_prestador
inscricao_municipal: inscricao_municipal_prestador
codigo_municipio: codigo_municipio_prestador
notas_fiscais:
  - id: 1234
    nome_arquivo: ACME_1234
    competencia: data_emissao
    natureza_operacao: natureza_operacao
    regime_especial_tributacao: regime_especial_tributacao
    optante_simples_nacional: optante_simples_nacional
    incentivador_cultural: incentivador_cultural
    item_lista_servico: item_lista_servico
    codigo_tributacao_municipio: codigo_tributacao_municipio
    discriminacao: discriminacao
    valor_servicos: 1000.00
    aliquota_iss: 0.02
    cnpj: cnpj_tomador
    inscricao_municipal: inscricao_municipal_tomador
    razao_social: razao_social_tomador
    logradouro: logradouro_tomador
    numero: numero_tomador
    complemento: complemento_tomador
    bairro: bairro_tomador
    codigo_municipio: codigo_municipio_tomador
    uf: uf_tomador
    cep: cep_tomador
  - id: 5678
    nome_arquivo: ACME_5678
    competencia: data_emissao_2
    natureza_operacao: natureza_operacao_2
    regime_especial_tributacao: regime_especial_tributacao_2
    optante_simples_nacional: optante_simples_nacional_2
    incentivador_cultural: incentivador_cultural_2
    item_lista_servico: item_lista_servico_2
    codigo_tributacao_municipio: codigo_tributacao_municipio_2
    discriminacao: discriminacao_2
    valor_servicos: 800.00
    aliquota_iss: 0.03
    cnpj: cnpj_tomador_2
    inscricao_municipal: inscricao_municipal_tomador_2
    razao_social: razao_social_tomador_2
    logradouro: logradouro_tomador_2
    numero: numero_tomador_2
    complemento: complemento_tomador_2
    bairro: bairro_tomador_2
    codigo_municipio: codigo_municipio_tomador_2
    uf: uf_tomador_2
    cep: cep_tomador_2
",
    )
    .unwrap();
    let mut lote_rps = LoteRps::from_yaml(&yaml).unwrap();
    lote_rps.sign(signature).unwrap();
    assert_eq!(
        xml_events_to_xml_string(&lote_rps.enviar_lote_rps_envio_events()),
        String::from(
            r##"<EnviarLoteRpsEnvio xmlns="http://www.abrasf.org.br/nfse.xsd" versao="1.00"><LoteRps xmlns="http://www.abrasf.org.br/nfse.xsd" Id="lote" versao="1.00"><NumeroLote>1</NumeroLote><Cnpj>cnpj_prestador</Cnpj><InscricaoMunicipal>inscricao_municipal_prestador</InscricaoMunicipal><QuantidadeRps>2</QuantidadeRps><ListaRps><Rps versao="1.00"><InfRps Id="1234" versao="1.00"><IdentificacaoRps><Numero>1234</Numero><Serie>1</Serie><Tipo>1</Tipo></IdentificacaoRps><DataEmissao>data_emissao</DataEmissao><NaturezaOperacao>natureza_operacao</NaturezaOperacao><RegimeEspecialTributacao>regime_especial_tributacao</RegimeEspecialTributacao><OptanteSimplesNacional>optante_simples_nacional</OptanteSimplesNacional><IncentivadorCultural>incentivador_cultural</IncentivadorCultural><Status>1</Status><Servico><Valores><ValorServicos>1000.00</ValorServicos><IssRetido>1</IssRetido><ValorIss>20.00</ValorIss><ValorIssRetido>20.00</ValorIssRetido><BaseCalculo>1000.00</BaseCalculo><Aliquota>0.02</Aliquota><ValorLiquidoNfse>980.00</ValorLiquidoNfse></Valores><ItemListaServico>item_lista_servico</ItemListaServico><CodigoTributacaoMunicipio>codigo_tributacao_municipio</CodigoTributacaoMunicipio><Discriminacao>discriminacao</Discriminacao><CodigoMunicipio>codigo_municipio_prestador</CodigoMunicipio></Servico><Prestador><Cnpj>cnpj_prestador</Cnpj><InscricaoMunicipal>inscricao_municipal_prestador</InscricaoMunicipal></Prestador><Tomador><IdentificacaoTomador><CpfCnpj><Cnpj>cnpj_tomador</Cnpj></CpfCnpj><InscricaoMunicipal>inscricao_municipal_tomador</InscricaoMunicipal></IdentificacaoTomador><RazaoSocial>razao_social_tomador</RazaoSocial><Endereco><Endereco>logradouro_tomador</Endereco><Numero>numero_tomador</Numero><Complemento>complemento_tomador</Complemento><Bairro>bairro_tomador</Bairro><CodigoMunicipio>codigo_municipio_tomador</CodigoMunicipio><Uf>uf_tomador</Uf><Cep>cep_tomador</Cep></Endereco></Tomador></InfRps></Rps><Rps versao="1.00"><InfRps Id="5678" versao="1.00"><IdentificacaoRps><Numero>5678</Numero><Serie>1</Serie><Tipo>1</Tipo></IdentificacaoRps><DataEmissao>data_emissao_2</DataEmissao><NaturezaOperacao>natureza_operacao_2</NaturezaOperacao><RegimeEspecialTributacao>regime_especial_tributacao_2</RegimeEspecialTributacao><OptanteSimplesNacional>optante_simples_nacional_2</OptanteSimplesNacional><IncentivadorCultural>incentivador_cultural_2</IncentivadorCultural><Status>1</Status><Servico><Valores><ValorServicos>800.00</ValorServicos><IssRetido>1</IssRetido><ValorIss>24.00</ValorIss><ValorIssRetido>24.00</ValorIssRetido><BaseCalculo>800.00</BaseCalculo><Aliquota>0.03</Aliquota><ValorLiquidoNfse>776.00</ValorLiquidoNfse></Valores><ItemListaServico>item_lista_servico_2</ItemListaServico><CodigoTributacaoMunicipio>codigo_tributacao_municipio_2</CodigoTributacaoMunicipio><Discriminacao>discriminacao_2</Discriminacao><CodigoMunicipio>codigo_municipio_prestador</CodigoMunicipio></Servico><Prestador><Cnpj>cnpj_prestador</Cnpj><InscricaoMunicipal>inscricao_municipal_prestador</InscricaoMunicipal></Prestador><Tomador><IdentificacaoTomador><CpfCnpj><Cnpj>cnpj_tomador_2</Cnpj></CpfCnpj><InscricaoMunicipal>inscricao_municipal_tomador_2</InscricaoMunicipal></IdentificacaoTomador><RazaoSocial>razao_social_tomador_2</RazaoSocial><Endereco><Endereco>logradouro_tomador_2</Endereco><Numero>numero_tomador_2</Numero><Complemento>complemento_tomador_2</Complemento><Bairro>bairro_tomador_2</Bairro><CodigoMunicipio>codigo_municipio_tomador_2</CodigoMunicipio><Uf>uf_tomador_2</Uf><Cep>cep_tomador_2</Cep></Endereco></Tomador></InfRps></Rps></ListaRps></LoteRps><Signature xmlns="http://www.w3.org/2000/09/xmldsig#"><SignedInfo><CanonicalizationMethod Algorithm="noop-c14n"/><SignatureMethod Algorithm="echo-signature"/><Reference URI="#lote"><Transforms><Transform Algorithm="noop-c14n"/></Transforms><DigestMethod Algorithm="echo-digest"/><DigestValue>the_digest</DigestValue></Reference></SignedInfo><SignatureValue>the_signature</SignatureValue><KeyInfo><X509Data><X509Certificate>the_certificate</X509Certificate></X509Data></KeyInfo></Signature></EnviarLoteRpsEnvio>"##
        )
    );
}

#[test]
fn should_create_protocolo() {
    let yaml: serde_yaml::Mapping = serde_yaml::from_str(
        "
cnpj: cnpj_prestador
inscricao_municipal: inscricao_municipal_prestador
",
    )
    .unwrap();
    let protocolo = Protocolo::from_yaml(&yaml)
        .unwrap()
        .set_protocolo(String::from("protocolo_123"));
    assert_eq!(
        xml_events_to_xml_string(&protocolo.protocolo_xml_events()),
        String::from(
            r##"<ConsultarLoteRpsEnvio xmlns="http://www.abrasf.org.br/nfse.xsd" versao="1.00"><Prestador><Cnpj>cnpj_prestador</Cnpj><InscricaoMunicipal>inscricao_municipal_prestador</InscricaoMunicipal></Prestador><Protocolo>protocolo_123</Protocolo></ConsultarLoteRpsEnvio>"##
        )
    );
}
