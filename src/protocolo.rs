//! The query for the outcome of a submitted batch, by its receipt number.
use vstd::prelude::*;
use crate::rps::{NFSE_NAMESPACE, LAYOUT_VERSION};
use crate::xml::{
    XmlEvent, EventView, events_view, text_element_view, open_view, attrs_view, push_event,
    push_text_element, start_event, end_event,
};
use crate::yaml::{YamlField, yaml_get, text_field, text_value, bad_field_message};

verus! {

/// The value of a [`Protocolo`].
pub struct ProtocoloView {
    pub protocolo: Seq<char>,
    pub cnpj: Seq<char>,
    pub inscricao_municipal: Seq<char>,
}

impl ProtocoloView {
    /// The `ConsultarLoteRpsEnvio` document.
    pub open spec fn protocolo_view(&self) -> Seq<EventView> {
        seq![
            EventView::Start(
                "ConsultarLoteRpsEnvio"@,
                seq![("xmlns"@, NFSE_NAMESPACE@), ("versao"@, LAYOUT_VERSION@)],
            ),
            open_view("Prestador"@),
        ] + text_element_view("Cnpj"@, self.cnpj) + text_element_view(
            "InscricaoMunicipal"@,
            self.inscricao_municipal,
        ) + seq![EventView::End("Prestador"@)] + text_element_view("Protocolo"@, self.protocolo)
            + seq![EventView::End("ConsultarLoteRpsEnvio"@)]
    }
}

/// A receipt number with the provider it belongs to.
pub struct Protocolo {
    protocolo: String,
    cnpj: String,
    inscricao_municipal: String,
}

impl View for Protocolo {
    type V = ProtocoloView;

    closed spec fn view(&self) -> ProtocoloView {
        ProtocoloView {
            protocolo: self.protocolo@,
            cnpj: self.cnpj@,
            inscricao_municipal: self.inscricao_municipal@,
        }
    }
}

impl Protocolo {
    pub fn new(protocolo: String, cnpj: String, inscricao_municipal: String) -> (r: Self)
        ensures
            r@ == (ProtocoloView {
                protocolo: protocolo@,
                cnpj: cnpj@,
                inscricao_municipal: inscricao_municipal@,
            }),
    {
        Protocolo { protocolo, cnpj, inscricao_municipal }
    }

    /// The provider from its YAML mapping (`cnpj` and `inscricao_municipal`,
    /// strings or numbers), with an empty receipt number.
    pub fn from_yaml(yaml: &serde_yaml::Mapping) -> (r: Result<Self, String>)
        ensures
            r matches Ok(p) ==> p@.protocolo.len() == 0,
    {
        Protocolo::from_fields(yaml_get(yaml, "cnpj"), yaml_get(yaml, "inscricao_municipal"))
    }

    /// The provider from its configured fields, with an empty receipt
    /// number; the first field that is missing or of the wrong kind is named
    /// in the error.
    pub fn from_fields(cnpj: YamlField, inscricao_municipal: YamlField) -> (r: Result<Self, String>)
        ensures
            text_value(cnpj) is None ==> (r matches Err(e) && e@ == bad_field_message("cnpj"@)),
            text_value(cnpj) is Some && text_value(inscricao_municipal) is None ==> (r matches Err(
                e,
            ) && e@ == bad_field_message("inscricao_municipal"@)),
            text_value(cnpj) is Some && text_value(inscricao_municipal) is Some ==> (r matches Ok(
                p,
            ) && p@ == (ProtocoloView {
                protocolo: Seq::empty(),
                cnpj: text_value(cnpj)->0,
                inscricao_municipal: text_value(inscricao_municipal)->0,
            })),
    {
        let cnpj = match text_field(cnpj, "cnpj") {
            Ok(v) => v,
            Err(e) => return Err(e),
        };
        let inscricao_municipal = match text_field(inscricao_municipal, "inscricao_municipal") {
            Ok(v) => v,
            Err(e) => return Err(e),
        };
        Ok(Protocolo::new(String::new(), cnpj, inscricao_municipal))
    }

    pub fn set_protocolo(self, protocolo: String) -> (r: Self)
        ensures
            r@ == (ProtocoloView { protocolo: protocolo@, ..self@ }),
    {
        let mut s = self;
        s.protocolo = protocolo;
        s
    }

    /// The receipt number.
    pub fn protocolo(&self) -> (r: &String)
        ensures
            r@ == self@.protocolo,
    {
        &self.protocolo
    }

    /// The query document.
    pub fn protocolo_xml_events(&self) -> (r: Vec<XmlEvent>)
        ensures
            events_view(r@) == self@.protocolo_view(),
    {
        let mut attrs: Vec<(String, String)> = Vec::new();
        attrs.push((String::from_str("xmlns"), String::from_str(NFSE_NAMESPACE)));
        attrs.push((String::from_str("versao"), String::from_str(LAYOUT_VERSION)));
        proof {
            assert(attrs_view(attrs@) =~= seq![
                ("xmlns"@, NFSE_NAMESPACE@),
                ("versao"@, LAYOUT_VERSION@),
            ]);
        }
        let mut events: Vec<XmlEvent> = Vec::new();
        push_event(&mut events, XmlEvent::Start(String::from_str("ConsultarLoteRpsEnvio"), attrs));
        push_event(&mut events, start_event("Prestador"));
        push_text_element(&mut events, "Cnpj", self.cnpj.as_str());
        push_text_element(&mut events, "InscricaoMunicipal", self.inscricao_municipal.as_str());
        push_event(&mut events, end_event("Prestador"));
        push_text_element(&mut events, "Protocolo", self.protocolo.as_str());
        push_event(&mut events, end_event("ConsultarLoteRpsEnvio"));
        proof {
            assert(events_view(events@) =~= self@.protocolo_view());
        }
        events
    }
}

} // verus!
