//! A record: one service invoice that signs its own `InfRps` fragment.
use vstd::prelude::*;
use crate::algorithms::SigningError;
use crate::utils::generate_random_rps;
use crate::yaml::{
    YamlField, yaml_get, yaml_as_mapping, bad_field, bad_field_message, text_field, string_field,
    optional_text_field, text_value, string_value, optional_accepts,
};
use crate::money::parse_decimal;
use crate::money::{decimal_of, cents_text, cents_of, tax_cents, net_cents, service_amounts};
use crate::signature::{XmlSignature, SignatureState, opt_view};
use crate::xml::{
    XmlEvent, EventView, events_view, text_element_view, open_view, attrs_view, push_event,
    push_events, push_text_element, start_event, end_event, xml_events_to_xml_string,
    document_text,
};

verus! {

/// Namespace of the invoice documents.
pub const NFSE_NAMESPACE: &'static str = "http://www.abrasf.org.br/nfse.xsd";

/// Layout version written on the documents.
pub const LAYOUT_VERSION: &'static str = "1.00";

/// An element that holds `text` where there is one, nothing where there is none.
pub open spec fn opt_text_element_view(name: Seq<char>, text: Option<Seq<char>>) -> Seq<EventView> {
    match text {
        Some(t) => text_element_view(name, t),
        None => Seq::empty(),
    }
}

pub fn push_opt_text_element(events: &mut Vec<XmlEvent>, name: &str, text: &Option<String>)
    ensures
        events_view(final(events)@) == events_view(old(events)@) + opt_text_element_view(
            name@,
            opt_view(*text),
        ),
{
    match text {
        Some(t) => push_text_element(events, name, t.as_str()),
        None => {
            assert(events_view(events@) =~= events_view(events@) + Seq::<EventView>::empty());
        },
    }
}

/// The value of an [`Rps`].
pub struct RpsView {
    pub id: Seq<char>,
    pub nome_arquivo: Seq<char>,
    pub data_emissao: Seq<char>,
    pub natureza_operacao: Seq<char>,
    pub regime_especial_tributacao: Seq<char>,
    pub optante_simples_nacional: Seq<char>,
    pub incentivador_cultural: Seq<char>,
    pub item_lista_servico: Seq<char>,
    pub codigo_tributacao_municipio: Seq<char>,
    pub discriminacao: Seq<char>,
    pub codigo_municipio: Seq<char>,
    pub valor_servicos: Seq<char>,
    pub aliquota_iss: Option<Seq<char>>,
    pub valor_iss: Option<Seq<char>>,
    pub valor_liquido: Seq<char>,
    pub cnpj_prestador: Seq<char>,
    pub inscricao_municipal_prestador: Seq<char>,
    pub cnpj_tomador: Option<Seq<char>>,
    pub inscricao_municipal_tomador: Option<Seq<char>>,
    pub razao_social_tomador: Seq<char>,
    pub logradouro_tomador: Seq<char>,
    pub numero_tomador: Seq<char>,
    pub complemento_tomador: Option<Seq<char>>,
    pub bairro_tomador: Seq<char>,
    pub codigo_municipio_tomador: Seq<char>,
    pub uf_tomador: Seq<char>,
    pub cep_tomador: Option<Seq<char>>,
    pub signature: Option<SignatureState>,
}

impl RpsView {
    /// The text that tells records apart: customer name, description and
    /// service value, separated by `|`.
    pub open spec fn identity(&self) -> Seq<char> {
        self.razao_social_tomador + seq!['|'] + self.discriminacao + seq!['|'] + self.valor_servicos
    }

    /// A signature, where there is one, has been signed.
    pub open spec fn wf(&self) -> bool {
        self.signature matches Some(s) ==> s.is_signed()
    }

    /// The `Valores` block.
    pub open spec fn valores_view(&self) -> Seq<EventView> {
        seq![open_view("Valores"@)] + text_element_view("ValorServicos"@, self.valor_servicos)
            + text_element_view(
            "IssRetido"@,
            if self.aliquota_iss is Some {
                "1"@
            } else {
                "2"@
            },
        ) + opt_text_element_view("ValorIss"@, self.valor_iss) + opt_text_element_view(
            "ValorIssRetido"@,
            self.valor_iss,
        ) + text_element_view("BaseCalculo"@, self.valor_servicos) + opt_text_element_view(
            "Aliquota"@,
            self.aliquota_iss,
        ) + text_element_view("ValorLiquidoNfse"@, self.valor_liquido) + seq![
            EventView::End("Valores"@),
        ]
    }

    /// The `Servico` block.
    pub open spec fn servico_view(&self) -> Seq<EventView> {
        seq![open_view("Servico"@)] + self.valores_view() + text_element_view(
            "ItemListaServico"@,
            self.item_lista_servico,
        ) + text_element_view("CodigoTributacaoMunicipio"@, self.codigo_tributacao_municipio)
            + text_element_view("Discriminacao"@, self.discriminacao) + text_element_view(
            "CodigoMunicipio"@,
            self.codigo_municipio,
        ) + seq![EventView::End("Servico"@)]
    }

    /// The `IdentificacaoTomador` block, present where the customer has a
    /// company number.
    pub open spec fn identificacao_tomador_view(&self) -> Seq<EventView> {
        match self.cnpj_tomador {
            Some(cnpj) => seq![open_view("IdentificacaoTomador"@), open_view("CpfCnpj"@)]
                + text_element_view("Cnpj"@, cnpj) + seq![EventView::End("CpfCnpj"@)]
                + opt_text_element_view("InscricaoMunicipal"@, self.inscricao_municipal_tomador)
                + seq![EventView::End("IdentificacaoTomador"@)],
            None => Seq::empty(),
        }
    }

    /// The `Tomador` block: the customer.
    pub open spec fn tomador_view(&self) -> Seq<EventView> {
        seq![open_view("Tomador"@)] + self.identificacao_tomador_view() + text_element_view(
            "RazaoSocial"@,
            self.razao_social_tomador,
        ) + seq![open_view("Endereco"@)] + text_element_view("Endereco"@, self.logradouro_tomador)
            + text_element_view("Numero"@, self.numero_tomador) + opt_text_element_view(
            "Complemento"@,
            self.complemento_tomador,
        ) + text_element_view("Bairro"@, self.bairro_tomador) + text_element_view(
            "CodigoMunicipio"@,
            self.codigo_municipio_tomador,
        ) + text_element_view("Uf"@, self.uf_tomador) + opt_text_element_view(
            "Cep"@,
            self.cep_tomador,
        ) + seq![EventView::End("Endereco"@), EventView::End("Tomador"@)]
    }

    /// The opening of the `InfRps` element.
    pub open spec fn inf_rps_start(&self, xmlns: bool) -> EventView {
        EventView::Start(
            "InfRps"@,
            (if xmlns {
                seq![("xmlns"@, NFSE_NAMESPACE@)]
            } else {
                Seq::empty()
            }) + seq![("Id"@, self.id), ("versao"@, LAYOUT_VERSION@)],
        )
    }

    /// The unsigned fragment of the record, the part its signature covers.
    pub open spec fn inf_rps_view(&self, xmlns: bool) -> Seq<EventView> {
        seq![self.inf_rps_start(xmlns), open_view("IdentificacaoRps"@)] + text_element_view(
            "Numero"@,
            self.id,
        ) + text_element_view("Serie"@, "1"@) + text_element_view("Tipo"@, "1"@) + seq![
            EventView::End("IdentificacaoRps"@),
        ] + text_element_view("DataEmissao"@, self.data_emissao) + text_element_view(
            "NaturezaOperacao"@,
            self.natureza_operacao,
        ) + text_element_view("RegimeEspecialTributacao"@, self.regime_especial_tributacao)
            + text_element_view("OptanteSimplesNacional"@, self.optante_simples_nacional)
            + text_element_view("IncentivadorCultural"@, self.incentivador_cultural)
            + text_element_view("Status"@, "1"@) + self.servico_view() + seq![
            open_view("Prestador"@),
        ] + text_element_view("Cnpj"@, self.cnpj_prestador) + text_element_view(
            "InscricaoMunicipal"@,
            self.inscricao_municipal_prestador,
        ) + seq![EventView::End("Prestador"@)] + self.tomador_view() + seq![
            EventView::End("InfRps"@),
        ]
    }

    /// The signature block of the record, empty while it is unsigned.
    pub open spec fn signature_view(&self) -> Seq<EventView> {
        match self.signature {
            Some(s) => s.signature_block(),
            None => Seq::empty(),
        }
    }

    /// The record as it stands in a document: the fragment, then its
    /// signature block.
    pub open spec fn rps_view(&self, xmlns: bool) -> Seq<EventView> {
        seq![
            EventView::Start(
                "Rps"@,
                (if xmlns {
                    seq![("xmlns"@, NFSE_NAMESPACE@)]
                } else {
                    Seq::empty()
                }) + seq![("versao"@, LAYOUT_VERSION@)],
            ),
        ] + self.inf_rps_view(false) + self.signature_view() + seq![EventView::End("Rps"@)]
    }
}

/// One service invoice.
pub struct Rps {
    id: String,
    pub nome_arquivo: String,
    data_emissao: String,
    natureza_operacao: String,
    regime_especial_tributacao: String,
    optante_simples_nacional: String,
    incentivador_cultural: String,
    item_lista_servico: String,
    codigo_tributacao_municipio: String,
    discriminacao: String,
    codigo_municipio: String,
    valor_servicos: String,
    aliquota_iss: Option<String>,
    valor_iss: Option<String>,
    valor_liquido: String,
    cnpj_prestador: String,
    inscricao_municipal_prestador: String,
    cnpj_tomador: Option<String>,
    inscricao_municipal_tomador: Option<String>,
    razao_social_tomador: String,
    logradouro_tomador: String,
    numero_tomador: String,
    complemento_tomador: Option<String>,
    bairro_tomador: String,
    codigo_municipio_tomador: String,
    uf_tomador: String,
    cep_tomador: Option<String>,
    signature: Option<XmlSignature>,
}

impl View for Rps {
    type V = RpsView;

    closed spec fn view(&self) -> RpsView {
        RpsView {
            id: self.id@,
            nome_arquivo: self.nome_arquivo@,
            data_emissao: self.data_emissao@,
            natureza_operacao: self.natureza_operacao@,
            regime_especial_tributacao: self.regime_especial_tributacao@,
            optante_simples_nacional: self.optante_simples_nacional@,
            incentivador_cultural: self.incentivador_cultural@,
            item_lista_servico: self.item_lista_servico@,
            codigo_tributacao_municipio: self.codigo_tributacao_municipio@,
            discriminacao: self.discriminacao@,
            codigo_municipio: self.codigo_municipio@,
            valor_servicos: self.valor_servicos@,
            aliquota_iss: opt_view(self.aliquota_iss),
            valor_iss: opt_view(self.valor_iss),
            valor_liquido: self.valor_liquido@,
            cnpj_prestador: self.cnpj_prestador@,
            inscricao_municipal_prestador: self.inscricao_municipal_prestador@,
            cnpj_tomador: opt_view(self.cnpj_tomador),
            inscricao_municipal_tomador: opt_view(self.inscricao_municipal_tomador),
            razao_social_tomador: self.razao_social_tomador@,
            logradouro_tomador: self.logradouro_tomador@,
            numero_tomador: self.numero_tomador@,
            complemento_tomador: opt_view(self.complemento_tomador),
            bairro_tomador: self.bairro_tomador@,
            codigo_municipio_tomador: self.codigo_municipio_tomador@,
            uf_tomador: self.uf_tomador@,
            cep_tomador: opt_view(self.cep_tomador),
            signature: match self.signature {
                Some(s) => Some(s@),
                None => None,
            },
        }
    }
}

impl Rps {
    /// A record with its amounts computed: the service value to two
    /// decimals; with a tax rate, the tax withheld (value times rate, to two
    /// decimals) and the value less that tax; without one, no tax and the
    /// value itself as net.
    pub fn new(
        id: String,
        nome_arquivo: String,
        data_emissao: String,
        natureza_operacao: String,
        regime_especial_tributacao: String,
        optante_simples_nacional: String,
        incentivador_cultural: String,
        item_lista_servico: String,
        codigo_tributacao_municipio: String,
        discriminacao: String,
        codigo_municipio: String,
        valor_servicos: String,
        aliquota_iss: Option<String>,
        cnpj_prestador: String,
        inscricao_municipal_prestador: String,
        cnpj_tomador: Option<String>,
        inscricao_municipal_tomador: Option<String>,
        razao_social_tomador: String,
        logradouro_tomador: String,
        numero_tomador: String,
        complemento_tomador: Option<String>,
        bairro_tomador: String,
        codigo_municipio_tomador: String,
        uf_tomador: String,
        cep_tomador: Option<String>,
    ) -> (r: Self)
        requires
            decimal_of(valor_servicos@) is Some,
            aliquota_iss matches Some(t) ==> decimal_of(t@) is Some,
        ensures
            r@ == (RpsView {
                id: id@,
                nome_arquivo: nome_arquivo@,
                data_emissao: data_emissao@,
                natureza_operacao: natureza_operacao@,
                regime_especial_tributacao: regime_especial_tributacao@,
                optante_simples_nacional: optante_simples_nacional@,
                incentivador_cultural: incentivador_cultural@,
                item_lista_servico: item_lista_servico@,
                codigo_tributacao_municipio: codigo_tributacao_municipio@,
                discriminacao: discriminacao@,
                codigo_municipio: codigo_municipio@,
                valor_servicos: cents_text(cents_of(decimal_of(valor_servicos@)->0) as int),
                aliquota_iss: opt_view(aliquota_iss),
                valor_iss: match aliquota_iss {
                    Some(t) => Some(
                        cents_text(
                            tax_cents(decimal_of(valor_servicos@)->0, decimal_of(t@)->0) as int,
                        ),
                    ),
                    None => None,
                },
                valor_liquido: match aliquota_iss {
                    Some(t) => cents_text(
                        net_cents(decimal_of(valor_servicos@)->0, decimal_of(t@)->0),
                    ),
                    None => cents_text(cents_of(decimal_of(valor_servicos@)->0) as int),
                },
                cnpj_prestador: cnpj_prestador@,
                inscricao_municipal_prestador: inscricao_municipal_prestador@,
                cnpj_tomador: opt_view(cnpj_tomador),
                inscricao_municipal_tomador: opt_view(inscricao_municipal_tomador),
                razao_social_tomador: razao_social_tomador@,
                logradouro_tomador: logradouro_tomador@,
                numero_tomador: numero_tomador@,
                complemento_tomador: opt_view(complemento_tomador),
                bairro_tomador: bairro_tomador@,
                codigo_municipio_tomador: codigo_municipio_tomador@,
                uf_tomador: uf_tomador@,
                cep_tomador: opt_view(cep_tomador),
                signature: None,
            }),
            r@.wf(),
    {
        let (valor_servicos, valor_iss, valor_liquido) = service_amounts(
            valor_servicos.as_str(),
            &aliquota_iss,
        );
        Rps {
            id,
            nome_arquivo,
            data_emissao,
            natureza_operacao,
            regime_especial_tributacao,
            optante_simples_nacional,
            incentivador_cultural,
            item_lista_servico,
            codigo_tributacao_municipio,
            discriminacao,
            codigo_municipio,
            valor_servicos,
            aliquota_iss,
            valor_iss,
            valor_liquido,
            cnpj_prestador,
            inscricao_municipal_prestador,
            cnpj_tomador,
            inscricao_municipal_tomador,
            razao_social_tomador,
            logradouro_tomador,
            numero_tomador,
            complemento_tomador,
            bairro_tomador,
            codigo_municipio_tomador,
            uf_tomador,
            cep_tomador,
            signature: None,
        }
    }

    fn push_valores(&self, events: &mut Vec<XmlEvent>)
        ensures
            events_view(final(events)@) == events_view(old(events)@) + self@.valores_view(),
    {
        let ghost start = events_view(events@);
        push_event(events, start_event("Valores"));
        push_text_element(events, "ValorServicos", self.valor_servicos.as_str());
        let retido = match self.aliquota_iss {
            Some(_) => "1",
            None => "2",
        };
        push_text_element(events, "IssRetido", retido);
        push_opt_text_element(events, "ValorIss", &self.valor_iss);
        push_opt_text_element(events, "ValorIssRetido", &self.valor_iss);
        push_text_element(events, "BaseCalculo", self.valor_servicos.as_str());
        push_opt_text_element(events, "Aliquota", &self.aliquota_iss);
        push_text_element(events, "ValorLiquidoNfse", self.valor_liquido.as_str());
        push_event(events, end_event("Valores"));
        proof {
            assert(events_view(events@) =~= start + self@.valores_view());
        }
    }

    fn push_servico(&self, events: &mut Vec<XmlEvent>)
        ensures
            events_view(final(events)@) == events_view(old(events)@) + self@.servico_view(),
    {
        let ghost start = events_view(events@);
        push_event(events, start_event("Servico"));
        self.push_valores(events);
        push_text_element(events, "ItemListaServico", self.item_lista_servico.as_str());
        push_text_element(
            events,
            "CodigoTributacaoMunicipio",
            self.codigo_tributacao_municipio.as_str(),
        );
        push_text_element(events, "Discriminacao", self.discriminacao.as_str());
        push_text_element(events, "CodigoMunicipio", self.codigo_municipio.as_str());
        push_event(events, end_event("Servico"));
        proof {
            assert(events_view(events@) =~= start + self@.servico_view());
        }
    }

    fn push_identificacao_tomador(&self, events: &mut Vec<XmlEvent>)
        ensures
            events_view(final(events)@) == events_view(old(events)@)
                + self@.identificacao_tomador_view(),
    {
        let ghost start = events_view(events@);
        match &self.cnpj_tomador {
            Some(cnpj) => {
                push_event(events, start_event("IdentificacaoTomador"));
                push_event(events, start_event("CpfCnpj"));
                push_text_element(events, "Cnpj", cnpj.as_str());
                push_event(events, end_event("CpfCnpj"));
                push_opt_text_element(events, "InscricaoMunicipal", &self.inscricao_municipal_tomador);
                push_event(events, end_event("IdentificacaoTomador"));
            },
            None => {},
        }
        proof {
            assert(events_view(events@) =~= start + self@.identificacao_tomador_view());
        }
    }

    fn push_tomador(&self, events: &mut Vec<XmlEvent>)
        ensures
            events_view(final(events)@) == events_view(old(events)@) + self@.tomador_view(),
    {
        let ghost start = events_view(events@);
        push_event(events, start_event("Tomador"));
        self.push_identificacao_tomador(events);
        push_text_element(events, "RazaoSocial", self.razao_social_tomador.as_str());
        push_event(events, start_event("Endereco"));
        push_text_element(events, "Endereco", self.logradouro_tomador.as_str());
        push_text_element(events, "Numero", self.numero_tomador.as_str());
        push_opt_text_element(events, "Complemento", &self.complemento_tomador);
        push_text_element(events, "Bairro", self.bairro_tomador.as_str());
        push_text_element(events, "CodigoMunicipio", self.codigo_municipio_tomador.as_str());
        push_text_element(events, "Uf", self.uf_tomador.as_str());
        push_opt_text_element(events, "Cep", &self.cep_tomador);
        push_event(events, end_event("Endereco"));
        push_event(events, end_event("Tomador"));
        proof {
            assert(events_view(events@) =~= start + self@.tomador_view());
        }
    }

    fn inf_rps_start_event(&self, xmlns: bool) -> (r: XmlEvent)
        ensures
            r@ == self@.inf_rps_start(xmlns),
    {
        let mut attrs: Vec<(String, String)> = Vec::new();
        if xmlns {
            attrs.push((String::from_str("xmlns"), String::from_str(NFSE_NAMESPACE)));
        }
        attrs.push((String::from_str("Id"), self.id.clone()));
        attrs.push((String::from_str("versao"), String::from_str(LAYOUT_VERSION)));
        proof {
            assert(attrs_view(attrs@) =~= (if xmlns {
                seq![("xmlns"@, NFSE_NAMESPACE@)]
            } else {
                Seq::empty()
            }) + seq![("Id"@, self@.id), ("versao"@, LAYOUT_VERSION@)]);
        }
        XmlEvent::Start(String::from_str("InfRps"), attrs)
    }

    /// The unsigned `InfRps` fragment; `xmlns` says whether it declares the
    /// document namespace itself.
    #[verifier::spinoff_prover]
    pub fn inf_rps_xml_events(&self, xmlns: bool) -> (r: Vec<XmlEvent>)
        ensures
            events_view(r@) == self@.inf_rps_view(xmlns),
    {
        let mut events: Vec<XmlEvent> = Vec::new();
        push_event(&mut events, self.inf_rps_start_event(xmlns));
        push_event(&mut events, start_event("IdentificacaoRps"));
        push_text_element(&mut events, "Numero", self.id.as_str());
        push_text_element(&mut events, "Serie", "1");
        push_text_element(&mut events, "Tipo", "1");
        push_event(&mut events, end_event("IdentificacaoRps"));
        push_text_element(&mut events, "DataEmissao", self.data_emissao.as_str());
        push_text_element(&mut events, "NaturezaOperacao", self.natureza_operacao.as_str());
        push_text_element(
            &mut events,
            "RegimeEspecialTributacao",
            self.regime_especial_tributacao.as_str(),
        );
        push_text_element(
            &mut events,
            "OptanteSimplesNacional",
            self.optante_simples_nacional.as_str(),
        );
        push_text_element(&mut events, "IncentivadorCultural", self.incentivador_cultural.as_str());
        push_text_element(&mut events, "Status", "1");
        self.push_servico(&mut events);
        push_event(&mut events, start_event("Prestador"));
        push_text_element(&mut events, "Cnpj", self.cnpj_prestador.as_str());
        push_text_element(
            &mut events,
            "InscricaoMunicipal",
            self.inscricao_municipal_prestador.as_str(),
        );
        push_event(&mut events, end_event("Prestador"));
        self.push_tomador(&mut events);
        push_event(&mut events, end_event("InfRps"));
        proof {
            assert(events_view(events@) =~= self@.inf_rps_view(xmlns));
        }
        events
    }

    /// The record as it stands in a document: its fragment followed by its
    /// signature block once it is signed.
    pub fn rps_xml_events(&self, xmlns: bool) -> (r: Vec<XmlEvent>)
        requires
            self@.wf(),
        ensures
            events_view(r@) == self@.rps_view(xmlns),
    {
        let mut attrs: Vec<(String, String)> = Vec::new();
        if xmlns {
            attrs.push((String::from_str("xmlns"), String::from_str(NFSE_NAMESPACE)));
        }
        attrs.push((String::from_str("versao"), String::from_str(LAYOUT_VERSION)));
        proof {
            assert(attrs_view(attrs@) =~= (if xmlns {
                seq![("xmlns"@, NFSE_NAMESPACE@)]
            } else {
                Seq::empty()
            }) + seq![("versao"@, LAYOUT_VERSION@)]);
        }
        let mut events: Vec<XmlEvent> = Vec::new();
        push_event(&mut events, XmlEvent::Start(String::from_str("Rps"), attrs));
        let inf = self.inf_rps_xml_events(false);
        push_events(&mut events, inf);
        match &self.signature {
            Some(signature) => {
                let block = signature.signature_xml_events();
                push_events(&mut events, block);
            },
            None => {},
        }
        push_event(&mut events, end_event("Rps"));
        proof {
            assert(events_view(events@) =~= self@.rps_view(xmlns));
        }
        events
    }

    /// Signs the record: a copy of `signature` is loaded with `#` and the
    /// record's id as reference and with the serialized fragment (declaring
    /// its namespace) as payload, signed, and kept, so that the fragment is
    /// followed by its signature block from then on. Where the key refuses,
    /// the record is left as it was.
    pub fn sign(&mut self, signature: XmlSignature) -> (r: Result<(), SigningError>)
        ensures
            (r is Ok) == signature@.loaded_with(
                seq!['#'] + old(self)@.id,
                document_text(old(self)@.inf_rps_view(true)),
            ).can_sign(),
            r is Err ==> final(self)@ == old(self)@,
            r is Ok ==> final(self)@ == (RpsView {
                signature: final(self)@.signature,
                ..old(self)@
            }),
            r is Ok ==> (final(self)@.signature matches Some(s) && s.is_signature_over(
                signature@,
                seq!['#'] + old(self)@.id,
                document_text(old(self)@.inf_rps_view(true)),
            )),
            r is Ok ==> final(self)@.wf(),
    {
        let mut uri = String::from_str("#");
        uri.append(self.id.as_str());
        proof {
            reveal_strlit("#");
            assert(uri@ =~= seq!['#'] + self@.id);
        }
        let inf = self.inf_rps_xml_events(true);
        let payload = xml_events_to_xml_string(inf.as_slice());
        match signature.sign_payload(uri, payload) {
            Ok(signed) => {
                self.signature = Some(signed);
                Ok(())
            },
            Err(e) => Err(e),
        }
    }

    /// The name of the file that the record's issued invoice is saved to.
    pub fn file_name(&self) -> (r: &String)
        ensures
            r@ == self@.nome_arquivo,
    {
        &self.nome_arquivo
    }

    /// A text that tells records apart: customer name, description and
    /// service value, separated by `|`.
    pub fn uniquely_identify(&self) -> (r: String)
        ensures
            r@ == self@.identity(),
    {
        let mut r = self.razao_social_tomador.clone();
        r.append("|");
        r.append(self.discriminacao.as_str());
        r.append("|");
        r.append(self.valor_servicos.as_str());
        proof {
            reveal_strlit("|");
        }
        r
    }
}

/// The fields of a record as a configuration holds them, by their keys.
pub struct RpsFields {
    pub nome_arquivo: YamlField,
    pub competencia: YamlField,
    pub natureza_operacao: YamlField,
    pub regime_especial_tributacao: YamlField,
    pub optante_simples_nacional: YamlField,
    pub incentivador_cultural: YamlField,
    pub item_lista_servico: YamlField,
    pub codigo_tributacao_municipio: YamlField,
    pub discriminacao: YamlField,
    pub valor_servicos: YamlField,
    pub aliquota_iss: YamlField,
    pub cnpj: YamlField,
    pub inscricao_municipal: YamlField,
    pub razao_social: YamlField,
    pub logradouro: YamlField,
    pub numero: YamlField,
    pub complemento: YamlField,
    pub bairro: YamlField,
    pub codigo_municipio: YamlField,
    pub uf: YamlField,
    pub cep: YamlField,
}

/// The first field, in reading order, that is missing or of the wrong kind,
/// as its error message; `None` when every field is in order.
pub open spec fn rps_fields_error(f: RpsFields) -> Option<Seq<char>> {
    if string_value(f.nome_arquivo) is None {
        Some(bad_field_message("nome_arquivo"@))
    } else if string_value(f.competencia) is None {
        Some(bad_field_message("competencia"@))
    } else if text_value(f.natureza_operacao) is None {
        Some(bad_field_message("natureza_operacao"@))
    } else if text_value(f.regime_especial_tributacao) is None {
        Some(bad_field_message("regime_especial_tributacao"@))
    } else if text_value(f.optante_simples_nacional) is None {
        Some(bad_field_message("optante_simples_nacional"@))
    } else if text_value(f.incentivador_cultural) is None {
        Some(bad_field_message("incentivador_cultural"@))
    } else if text_value(f.item_lista_servico) is None {
        Some(bad_field_message("item_lista_servico"@))
    } else if text_value(f.codigo_tributacao_municipio) is None {
        Some(bad_field_message("codigo_tributacao_municipio"@))
    } else if text_value(f.discriminacao) is None {
        Some(bad_field_message("discriminacao"@))
    } else if text_value(f.valor_servicos) is None {
        Some(bad_field_message("valor_servicos"@))
    } else if decimal_of(text_value(f.valor_servicos)->0) is None {
        Some(bad_field_message("valor_servicos"@))
    } else if !optional_accepts(f.aliquota_iss) {
        Some(bad_field_message("aliquota_iss"@))
    } else if text_value(f.aliquota_iss) matches Some(t) && decimal_of(t) is None {
        Some(bad_field_message("aliquota_iss"@))
    } else if !optional_accepts(f.cnpj) {
        Some(bad_field_message("cnpj"@))
    } else if !optional_accepts(f.inscricao_municipal) {
        Some(bad_field_message("inscricao_municipal"@))
    } else if text_value(f.razao_social) is None {
        Some(bad_field_message("razao_social"@))
    } else if text_value(f.logradouro) is None {
        Some(bad_field_message("logradouro"@))
    } else if text_value(f.numero) is None {
        Some(bad_field_message("numero"@))
    } else if !optional_accepts(f.complemento) {
        Some(bad_field_message("complemento"@))
    } else if text_value(f.bairro) is None {
        Some(bad_field_message("bairro"@))
    } else if text_value(f.codigo_municipio) is None {
        Some(bad_field_message("codigo_municipio"@))
    } else if text_value(f.uf) is None {
        Some(bad_field_message("uf"@))
    } else if !optional_accepts(f.cep) {
        Some(bad_field_message("cep"@))
    } else {
        None
    }
}

/// The record that fields in order give, with its amounts computed.
pub open spec fn rps_from_fields_view(
    id: Seq<char>,
    f: RpsFields,
    cnpj: Seq<char>,
    inscricao_municipal: Seq<char>,
    codigo_municipio: Seq<char>,
) -> RpsView {
    let amount = decimal_of(text_value(f.valor_servicos)->0)->0;
    let rate = text_value(f.aliquota_iss);
    RpsView {
        id,
        nome_arquivo: string_value(f.nome_arquivo)->0,
        data_emissao: string_value(f.competencia)->0,
        natureza_operacao: text_value(f.natureza_operacao)->0,
        regime_especial_tributacao: text_value(f.regime_especial_tributacao)->0,
        optante_simples_nacional: text_value(f.optante_simples_nacional)->0,
        incentivador_cultural: text_value(f.incentivador_cultural)->0,
        item_lista_servico: text_value(f.item_lista_servico)->0,
        codigo_tributacao_municipio: text_value(f.codigo_tributacao_municipio)->0,
        discriminacao: text_value(f.discriminacao)->0,
        codigo_municipio,
        valor_servicos: cents_text(cents_of(amount) as int),
        aliquota_iss: rate,
        valor_iss: match rate {
            Some(t) => Some(cents_text(tax_cents(amount, decimal_of(t)->0) as int)),
            None => None,
        },
        valor_liquido: match rate {
            Some(t) => cents_text(net_cents(amount, decimal_of(t)->0)),
            None => cents_text(cents_of(amount) as int),
        },
        cnpj_prestador: cnpj,
        inscricao_municipal_prestador: inscricao_municipal,
        cnpj_tomador: text_value(f.cnpj),
        inscricao_municipal_tomador: text_value(f.inscricao_municipal),
        razao_social_tomador: text_value(f.razao_social)->0,
        logradouro_tomador: text_value(f.logradouro)->0,
        numero_tomador: text_value(f.numero)->0,
        complemento_tomador: text_value(f.complemento),
        bairro_tomador: text_value(f.bairro)->0,
        codigo_municipio_tomador: text_value(f.codigo_municipio)->0,
        uf_tomador: text_value(f.uf)->0,
        cep_tomador: text_value(f.cep),
        signature: None,
    }
}

impl Rps {
    /// A record from its configured fields: every field is checked in
    /// reading order, and the first one that is missing or of the wrong kind
    /// is named in the error.
    #[verifier::spinoff_prover]
    #[verifier::rlimit(100)]
    pub fn from_fields(
        id: String,
        f: RpsFields,
        cnpj: String,
        inscricao_municipal: String,
        codigo_municipio: String,
    ) -> (r: Result<Self, String>)
        ensures
            rps_fields_error(f) matches Some(e) ==> (r matches Err(x) && x@ == e),
            rps_fields_error(f) is None ==> (r matches Ok(rps) && rps@ == rps_from_fields_view(
                id@,
                f,
                cnpj@,
                inscricao_municipal@,
                codigo_municipio@,
            )),
    {
        let RpsFields {
            nome_arquivo: field_nome_arquivo,
            competencia: field_competencia,
            natureza_operacao: field_natureza_operacao,
            regime_especial_tributacao: field_regime_especial_tributacao,
            optante_simples_nacional: field_optante_simples_nacional,
            incentivador_cultural: field_incentivador_cultural,
            item_lista_servico: field_item_lista_servico,
            codigo_tributacao_municipio: field_codigo_tributacao_municipio,
            discriminacao: field_discriminacao,
            valor_servicos: field_valor_servicos,
            aliquota_iss: field_aliquota_iss,
            cnpj: field_cnpj,
            inscricao_municipal: field_inscricao_municipal,
            razao_social: field_razao_social,
            logradouro: field_logradouro,
            numero: field_numero,
            complemento: field_complemento,
            bairro: field_bairro,
            codigo_municipio: field_codigo_municipio,
            uf: field_uf,
            cep: field_cep,
        } = f;
        let nome_arquivo = match string_field(field_nome_arquivo, "nome_arquivo") {
            Ok(v) => v,
            Err(e) => return Err(e),
        };
        let data_emissao = match string_field(field_competencia, "competencia") {
            Ok(v) => v,
            Err(e) => return Err(e),
        };
        let natureza_operacao = match text_field(field_natureza_operacao, "natureza_operacao") {
            Ok(v) => v,
            Err(e) => return Err(e),
        };
        let regime_especial_tributacao = match text_field(field_regime_especial_tributacao, "regime_especial_tributacao") {
            Ok(v) => v,
            Err(e) => return Err(e),
        };
        let optante_simples_nacional = match text_field(field_optante_simples_nacional, "optante_simples_nacional") {
            Ok(v) => v,
            Err(e) => return Err(e),
        };
        let incentivador_cultural = match text_field(field_incentivador_cultural, "incentivador_cultural") {
            Ok(v) => v,
            Err(e) => return Err(e),
        };
        let item_lista_servico = match text_field(field_item_lista_servico, "item_lista_servico") {
            Ok(v) => v,
            Err(e) => return Err(e),
        };
        let codigo_tributacao_municipio = match text_field(field_codigo_tributacao_municipio, "codigo_tributacao_municipio") {
            Ok(v) => v,
            Err(e) => return Err(e),
        };
        let discriminacao = match text_field(field_discriminacao, "discriminacao") {
            Ok(v) => v,
            Err(e) => return Err(e),
        };
        let valor_servicos = match text_field(field_valor_servicos, "valor_servicos") {
            Ok(v) => v,
            Err(e) => return Err(e),
        };
        if parse_decimal(valor_servicos.as_str()).is_none() {
            return Err(bad_field("valor_servicos"));
        }
        let aliquota_iss = match optional_text_field(field_aliquota_iss, "aliquota_iss") {
            Ok(v) => v,
            Err(e) => return Err(e),
        };
        match &aliquota_iss {
            Some(t) => {
                if parse_decimal(t.as_str()).is_none() {
                    return Err(bad_field("aliquota_iss"));
                }
            },
            None => {},
        }
        let cnpj_tomador = match optional_text_field(field_cnpj, "cnpj") {
            Ok(v) => v,
            Err(e) => return Err(e),
        };
        let inscricao_municipal_tomador = match optional_text_field(field_inscricao_municipal, "inscricao_municipal") {
            Ok(v) => v,
            Err(e) => return Err(e),
        };
        let razao_social_tomador = match text_field(field_razao_social, "razao_social") {
            Ok(v) => v,
            Err(e) => return Err(e),
        };
        let logradouro_tomador = match text_field(field_logradouro, "logradouro") {
            Ok(v) => v,
            Err(e) => return Err(e),
        };
        let numero_tomador = match text_field(field_numero, "numero") {
            Ok(v) => v,
            Err(e) => return Err(e),
        };
        let complemento_tomador = match optional_text_field(field_complemento, "complemento") {
            Ok(v) => v,
            Err(e) => return Err(e),
        };
        let bairro_tomador = match text_field(field_bairro, "bairro") {
            Ok(v) => v,
            Err(e) => return Err(e),
        };
        let codigo_municipio_tomador = match text_field(field_codigo_municipio, "codigo_municipio") {
            Ok(v) => v,
            Err(e) => return Err(e),
        };
        let uf_tomador = match text_field(field_uf, "uf") {
            Ok(v) => v,
            Err(e) => return Err(e),
        };
        let cep_tomador = match optional_text_field(field_cep, "cep") {
            Ok(v) => v,
            Err(e) => return Err(e),
        };
        let r = Rps::new(
            id,
            nome_arquivo,
            data_emissao,
            natureza_operacao,
            regime_especial_tributacao,
            optante_simples_nacional,
            incentivador_cultural,
            item_lista_servico,
            codigo_tributacao_municipio,
            discriminacao,
            codigo_municipio,
            valor_servicos,
            aliquota_iss,
            cnpj,
            inscricao_municipal,
            cnpj_tomador,
            inscricao_municipal_tomador,
            razao_social_tomador,
            logradouro_tomador,
            numero_tomador,
            complemento_tomador,
            bairro_tomador,
            codigo_municipio_tomador,
            uf_tomador,
            cep_tomador,
        );
        Ok(r)
    }
}

/// The identifier of a record: the configured string or number, or
/// `generated` where none is configured.
pub fn record_id(field: YamlField, generated: String) -> (r: Result<String, String>)
    ensures
        field is Missing ==> (r matches Ok(s) && s@ == generated@),
        text_value(field) matches Some(t) ==> (r matches Ok(s) && s@ == t),
        !(field is Missing) && text_value(field) is None ==> (r matches Err(e) && e@
            == bad_field_message("id"@)),
{
    match field {
        YamlField::Missing => Ok(generated),
        other => text_field(other, "id"),
    }
}

impl Rps {
    /// A record from its YAML mapping and the provider's fields. Every field
    /// must be present with a string or a number (`nome_arquivo` and
    /// `competencia`: a string), but `id` (generated when absent) and the
    /// optional `aliquota_iss`,
    /// `cnpj`, `inscricao_municipal`, `complemento`, `cep`; `valor_servicos`
    /// and `aliquota_iss` must be decimal numbers. Otherwise the error names
    /// the field.
    pub fn from_yaml(
        yaml: serde_yaml::Value,
        cnpj: String,
        inscricao_municipal: String,
        codigo_municipio: String,
    ) -> (r: Result<Self, String>)
        ensures
            r matches Ok(rps) ==> {
                &&& rps@.wf()
                &&& rps@.signature is None
                &&& rps@.cnpj_prestador == cnpj@
                &&& rps@.inscricao_municipal_prestador == inscricao_municipal@
                &&& rps@.codigo_municipio == codigo_municipio@
            },
    {
        let map = match yaml_as_mapping(yaml) {
            Some(m) => m,
            None => return Err(String::from_str("bad yaml input")),
        };
        let id_field = yaml_get(&map, "id");
        let generated = match &id_field {
            YamlField::Missing => generate_random_rps(),
            _ => String::new(),
        };
        let id = match record_id(id_field, generated) {
            Ok(v) => v,
            Err(e) => return Err(e),
        };
        let fields = RpsFields {
            nome_arquivo: yaml_get(&map, "nome_arquivo"),
            competencia: yaml_get(&map, "competencia"),
            natureza_operacao: yaml_get(&map, "natureza_operacao"),
            regime_especial_tributacao: yaml_get(&map, "regime_especial_tributacao"),
            optante_simples_nacional: yaml_get(&map, "optante_simples_nacional"),
            incentivador_cultural: yaml_get(&map, "incentivador_cultural"),
            item_lista_servico: yaml_get(&map, "item_lista_servico"),
            codigo_tributacao_municipio: yaml_get(&map, "codigo_tributacao_municipio"),
            discriminacao: yaml_get(&map, "discriminacao"),
            valor_servicos: yaml_get(&map, "valor_servicos"),
            aliquota_iss: yaml_get(&map, "aliquota_iss"),
            cnpj: yaml_get(&map, "cnpj"),
            inscricao_municipal: yaml_get(&map, "inscricao_municipal"),
            razao_social: yaml_get(&map, "razao_social"),
            logradouro: yaml_get(&map, "logradouro"),
            numero: yaml_get(&map, "numero"),
            complemento: yaml_get(&map, "complemento"),
            bairro: yaml_get(&map, "bairro"),
            codigo_municipio: yaml_get(&map, "codigo_municipio"),
            uf: yaml_get(&map, "uf"),
            cep: yaml_get(&map, "cep"),
        };
        Rps::from_fields(id, fields, cnpj, inscricao_municipal, codigo_municipio)
    }
}

} // verus!
