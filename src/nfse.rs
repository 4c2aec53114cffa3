//! Reading an issued invoice (NFS-e) out of the counterparty's response:
//! quick-xml reads the events, the fields are picked by their element path.
use vstd::prelude::*;
use crate::signature::opt_view;

verus! {

#[verifier::external_type_specification]
#[verifier::external_body]
#[verifier::reject_recursive_types(R)]
pub struct ExXmlReader<R>(quick_xml::reader::Reader<R>);

/// One event as the response reader delivers it.
pub enum XmlRead {
    Start(String),
    End(String),
    /// Character data as it stands in the document, entities unexpanded.
    Text(String),
    Eof,
    /// Any other kind of event: an empty element, a comment, a declaration,
    /// CDATA, a processing instruction, a document type.
    Other,
    /// The reader failed; its message.
    Error(String),
}

pub enum ReadView {
    Start(Seq<char>),
    End(Seq<char>),
    Text(Seq<char>),
    Eof,
    Other,
    Error(Seq<char>),
}

impl View for XmlRead {
    type V = ReadView;

    open spec fn view(&self) -> ReadView {
        match self {
            XmlRead::Start(n) => ReadView::Start(n@),
            XmlRead::End(n) => ReadView::End(n@),
            XmlRead::Text(t) => ReadView::Text(t@),
            XmlRead::Eof => ReadView::Eof,
            XmlRead::Other => ReadView::Other,
            XmlRead::Error(m) => ReadView::Error(m@),
        }
    }
}

pub open spec fn reads_view(rs: Seq<XmlRead>) -> Seq<ReadView> {
    rs.map_values(|r: XmlRead| r@)
}

/// Relies on `quick_xml::reader::Reader::from_str`: a reader over the text.
#[verifier::external_body]
fn xml_reader<'a>(xml: &'a str) -> (r: quick_xml::reader::Reader<&'a [u8]>) {
    quick_xml::reader::Reader::from_str(xml)
}

/// Relies on `quick_xml::reader::Reader::read_event`: the next event, with
/// element names and raw text as strings.
#[verifier::external_body]
fn read_xml_event<'a>(reader: &mut quick_xml::reader::Reader<&'a [u8]>) -> (r: XmlRead) {
    match reader.read_event() {
        Ok(quick_xml::events::Event::Start(e)) => XmlRead::Start(String::from_utf8_lossy(e.name().as_ref()).into_owned()),
        Ok(quick_xml::events::Event::End(e)) => XmlRead::End(String::from_utf8_lossy(e.name().as_ref()).into_owned()),
        Ok(quick_xml::events::Event::Text(e)) => XmlRead::Text(String::from_utf8_lossy(&e).into_owned()),
        Ok(quick_xml::events::Event::Eof) => XmlRead::Eof,
        Ok(_) => XmlRead::Other,
        Err(e) => XmlRead::Error(format!("{}", e)),
    }
}

/// Where a text's field is found from the elements open around it.
#[derive(Clone, Copy, PartialEq, Eq, Structural)]
pub enum PathClass {
    /// The text is the field with this number.
    Field(usize),
    /// The text belongs to no field.
    Ignore,
    /// The path ends where a deeper element was expected.
    Bad,
    /// The outermost element is not `InfNfse`.
    Unexpected,
}

/// The number of fields of an invoice.
pub const N_FIELDS: usize = 35;

/// `s` is the literal `lit`.
fn is_lit(s: &String, lit: &str) -> (r: bool)
    ensures
        r == (s@ == lit@),
{
    let n = s.as_str().unicode_len();
    let m = lit.unicode_len();
    if n != m {
        return false;
    }
    let mut i: usize = 0;
    while i < n
        invariant
            n == s@.len(),
            m == lit@.len(),
            n == m,
            i <= n,
            forall|j: int| 0 <= j < i ==> s@[j] == lit@[j],
        decreases n - i,
    {
        if s.as_str().get_char(i) != lit.get_char(i) {
            return false;
        }
        i += 1;
    }
    assert(s@ =~= lit@);
    true
}

/// The field of a `inf` child, by its name.
pub open spec fn inf_field(n: Seq<char>) -> Option<usize> {
    if n == "Numero"@ {
        Some(0)
    } else if n == "CodigoVerificacao"@ {
        Some(1)
    } else if n == "DataEmissao"@ {
        Some(2)
    } else if n == "Competencia"@ {
        Some(3)
    } else if n == "NaturezaOperacao"@ {
        Some(4)
    } else if n == "RegimeEspecialTributacao"@ {
        Some(5)
    } else if n == "OptanteSimplesNacional"@ {
        Some(6)
    } else if n == "IncentivadorCultural"@ {
        Some(7)
    } else if n == "OutrasInformacoes"@ {
        Some(8)
    } else {
        None
    }
}

fn inf_field_exec(n: &String) -> (r: Option<usize>)
    ensures
        r == inf_field(n@),
{
    if is_lit(n, "Numero") {
        Some(0)
    } else if is_lit(n, "CodigoVerificacao") {
        Some(1)
    } else if is_lit(n, "DataEmissao") {
        Some(2)
    } else if is_lit(n, "Competencia") {
        Some(3)
    } else if is_lit(n, "NaturezaOperacao") {
        Some(4)
    } else if is_lit(n, "RegimeEspecialTributacao") {
        Some(5)
    } else if is_lit(n, "OptanteSimplesNacional") {
        Some(6)
    } else if is_lit(n, "IncentivadorCultural") {
        Some(7)
    } else if is_lit(n, "OutrasInformacoes") {
        Some(8)
    } else {
        None
    }
}

/// The field of a `valores` child, by its name.
pub open spec fn valores_field(n: Seq<char>) -> Option<usize> {
    if n == "ValorServicos"@ {
        Some(9)
    } else if n == "Aliquota"@ {
        Some(10)
    } else if n == "ValorIss"@ {
        Some(11)
    } else {
        None
    }
}

fn valores_field_exec(n: &String) -> (r: Option<usize>)
    ensures
        r == valores_field(n@),
{
    if is_lit(n, "ValorServicos") {
        Some(9)
    } else if is_lit(n, "Aliquota") {
        Some(10)
    } else if is_lit(n, "ValorIss") {
        Some(11)
    } else {
        None
    }
}

/// The field of a `servico` child, by its name.
pub open spec fn servico_field(n: Seq<char>) -> Option<usize> {
    if n == "CodigoTributacaoMunicipio"@ {
        Some(12)
    } else if n == "Discriminacao"@ {
        Some(13)
    } else if n == "CodigoMunicipio"@ {
        Some(14)
    } else {
        None
    }
}

fn servico_field_exec(n: &String) -> (r: Option<usize>)
    ensures
        r == servico_field(n@),
{
    if is_lit(n, "CodigoTributacaoMunicipio") {
        Some(12)
    } else if is_lit(n, "Discriminacao") {
        Some(13)
    } else if is_lit(n, "CodigoMunicipio") {
        Some(14)
    } else {
        None
    }
}

/// The field of a `identificacao_prestador` child, by its name.
pub open spec fn identificacao_prestador_field(n: Seq<char>) -> Option<usize> {
    if n == "Cnpj"@ {
        Some(15)
    } else if n == "InscricaoMunicipal"@ {
        Some(16)
    } else {
        None
    }
}

fn identificacao_prestador_field_exec(n: &String) -> (r: Option<usize>)
    ensures
        r == identificacao_prestador_field(n@),
{
    if is_lit(n, "Cnpj") {
        Some(15)
    } else if is_lit(n, "InscricaoMunicipal") {
        Some(16)
    } else {
        None
    }
}

/// The field of a `prestador` child, by its name.
pub open spec fn prestador_field(n: Seq<char>) -> Option<usize> {
    if n == "RazaoSocial"@ {
        Some(17)
    } else {
        None
    }
}

fn prestador_field_exec(n: &String) -> (r: Option<usize>)
    ensures
        r == prestador_field(n@),
{
    if is_lit(n, "RazaoSocial") {
        Some(17)
    } else {
        None
    }
}

/// The field of a `endereco_prestador` child, by its name.
pub open spec fn endereco_prestador_field(n: Seq<char>) -> Option<usize> {
    if n == "Endereco"@ {
        Some(18)
    } else if n == "Numero"@ {
        Some(19)
    } else if n == "Complemento"@ {
        Some(20)
    } else if n == "Bairro"@ {
        Some(21)
    } else if n == "CodigoMunicipio"@ {
        Some(22)
    } else if n == "Uf"@ {
        Some(23)
    } else if n == "Cep"@ {
        Some(24)
    } else {
        None
    }
}

fn endereco_prestador_field_exec(n: &String) -> (r: Option<usize>)
    ensures
        r == endereco_prestador_field(n@),
{
    if is_lit(n, "Endereco") {
        Some(18)
    } else if is_lit(n, "Numero") {
        Some(19)
    } else if is_lit(n, "Complemento") {
        Some(20)
    } else if is_lit(n, "Bairro") {
        Some(21)
    } else if is_lit(n, "CodigoMunicipio") {
        Some(22)
    } else if is_lit(n, "Uf") {
        Some(23)
    } else if is_lit(n, "Cep") {
        Some(24)
    } else {
        None
    }
}

/// The field of a `cpf_cnpj` child, by its name.
pub open spec fn cpf_cnpj_field(n: Seq<char>) -> Option<usize> {
    if n == "Cnpj"@ {
        Some(25)
    } else {
        None
    }
}

fn cpf_cnpj_field_exec(n: &String) -> (r: Option<usize>)
    ensures
        r == cpf_cnpj_field(n@),
{
    if is_lit(n, "Cnpj") {
        Some(25)
    } else {
        None
    }
}

/// The field of a `identificacao_tomador` child, by its name.
pub open spec fn identificacao_tomador_field(n: Seq<char>) -> Option<usize> {
    if n == "InscricaoMunicipal"@ {
        Some(26)
    } else {
        None
    }
}

fn identificacao_tomador_field_exec(n: &String) -> (r: Option<usize>)
    ensures
        r == identificacao_tomador_field(n@),
{
    if is_lit(n, "InscricaoMunicipal") {
        Some(26)
    } else {
        None
    }
}

/// The field of a `tomador` child, by its name.
pub open spec fn tomador_field(n: Seq<char>) -> Option<usize> {
    if n == "RazaoSocial"@ {
        Some(27)
    } else {
        None
    }
}

fn tomador_field_exec(n: &String) -> (r: Option<usize>)
    ensures
        r == tomador_field(n@),
{
    if is_lit(n, "RazaoSocial") {
        Some(27)
    } else {
        None
    }
}

/// The field of a `endereco_tomador` child, by its name.
pub open spec fn endereco_tomador_field(n: Seq<char>) -> Option<usize> {
    if n == "Endereco"@ {
        Some(28)
    } else if n == "Numero"@ {
        Some(29)
    } else if n == "Complemento"@ {
        Some(30)
    } else if n == "Bairro"@ {
        Some(31)
    } else if n == "CodigoMunicipio"@ {
        Some(32)
    } else if n == "Uf"@ {
        Some(33)
    } else if n == "Cep"@ {
        Some(34)
    } else {
        None
    }
}

fn endereco_tomador_field_exec(n: &String) -> (r: Option<usize>)
    ensures
        r == endereco_tomador_field(n@),
{
    if is_lit(n, "Endereco") {
        Some(28)
    } else if is_lit(n, "Numero") {
        Some(29)
    } else if is_lit(n, "Complemento") {
        Some(30)
    } else if is_lit(n, "Bairro") {
        Some(31)
    } else if is_lit(n, "CodigoMunicipio") {
        Some(32)
    } else if is_lit(n, "Uf") {
        Some(33)
    } else if is_lit(n, "Cep") {
        Some(34)
    } else {
        None
    }
}

pub open spec fn as_class(f: Option<usize>) -> PathClass {
    match f {
        Some(i) => PathClass::Field(i),
        None => PathClass::Ignore,
    }
}

/// Which field a text fills, from the names of the elements open around it,
/// outermost first. Only as many names are read as the decision needs.
pub open spec fn classify(p: Seq<Seq<char>>) -> PathClass {
    if p.len() == 0 {
        PathClass::Bad
    } else if p[0] != "InfNfse"@ {
        PathClass::Unexpected
    } else if p.len() < 2 {
        PathClass::Bad
    } else if inf_field(p[1]) is Some {
        as_class(inf_field(p[1]))
    } else if p[1] == "Servico"@ {
        if p.len() < 3 {
            PathClass::Bad
        } else if p[2] == "Valores"@ {
            if p.len() < 4 {
                PathClass::Bad
            } else {
                as_class(valores_field(p[3]))
            }
        } else {
            as_class(servico_field(p[2]))
        }
    } else if p[1] == "PrestadorServico"@ {
        if p.len() < 3 {
            PathClass::Bad
        } else if p[2] == "IdentificacaoPrestador"@ {
            if p.len() < 4 {
                PathClass::Bad
            } else {
                as_class(identificacao_prestador_field(p[3]))
            }
        } else if p[2] == "Endereco"@ {
            if p.len() < 4 {
                PathClass::Bad
            } else {
                as_class(endereco_prestador_field(p[3]))
            }
        } else {
            as_class(prestador_field(p[2]))
        }
    } else if p[1] == "TomadorServico"@ {
        if p.len() < 3 {
            PathClass::Bad
        } else if p[2] == "IdentificacaoTomador"@ {
            if p.len() < 4 {
                PathClass::Bad
            } else if p[3] == "CpfCnpj"@ {
                if p.len() < 5 {
                    PathClass::Bad
                } else {
                    as_class(cpf_cnpj_field(p[4]))
                }
            } else {
                as_class(identificacao_tomador_field(p[3]))
            }
        } else if p[2] == "Endereco"@ {
            if p.len() < 4 {
                PathClass::Bad
            } else {
                as_class(endereco_tomador_field(p[3]))
            }
        } else {
            as_class(tomador_field(p[2]))
        }
    } else {
        PathClass::Ignore
    }
}

pub open spec fn strings_view(v: Seq<String>) -> Seq<Seq<char>> {
    v.map_values(|s: String| s@)
}

fn as_class_exec(f: Option<usize>) -> (r: PathClass)
    ensures
        r == as_class(f),
{
    match f {
        Some(i) => PathClass::Field(i),
        None => PathClass::Ignore,
    }
}

#[verifier::spinoff_prover]
pub fn classify_path(p: &Vec<String>) -> (r: PathClass)
    ensures
        r == classify(strings_view(p@)),
{
    let ghost v = strings_view(p@);
    let n = p.len();
    if n == 0 {
        return PathClass::Bad;
    }
    assert(v[0] == p@[0]@);
    if !is_lit(&p[0], "InfNfse") {
        return PathClass::Unexpected;
    }
    if n < 2 {
        return PathClass::Bad;
    }
    assert(v[1] == p@[1]@);
    let direct = inf_field_exec(&p[1]);
    if direct.is_some() {
        return as_class_exec(direct);
    }
    if n >= 3 {
        assert(v[2] == p@[2]@);
    }
    if n >= 4 {
        assert(v[3] == p@[3]@);
    }
    if n >= 5 {
        assert(v[4] == p@[4]@);
    }
    if is_lit(&p[1], "Servico") {
        if n < 3 {
            PathClass::Bad
        } else if is_lit(&p[2], "Valores") {
            if n < 4 {
                PathClass::Bad
            } else {
                as_class_exec(valores_field_exec(&p[3]))
            }
        } else {
            as_class_exec(servico_field_exec(&p[2]))
        }
    } else if is_lit(&p[1], "PrestadorServico") {
        if n < 3 {
            PathClass::Bad
        } else if is_lit(&p[2], "IdentificacaoPrestador") {
            if n < 4 {
                PathClass::Bad
            } else {
                as_class_exec(identificacao_prestador_field_exec(&p[3]))
            }
        } else if is_lit(&p[2], "Endereco") {
            if n < 4 {
                PathClass::Bad
            } else {
                as_class_exec(endereco_prestador_field_exec(&p[3]))
            }
        } else {
            as_class_exec(prestador_field_exec(&p[2]))
        }
    } else if is_lit(&p[1], "TomadorServico") {
        if n < 3 {
            PathClass::Bad
        } else if is_lit(&p[2], "IdentificacaoTomador") {
            if n < 4 {
                PathClass::Bad
            } else if is_lit(&p[3], "CpfCnpj") {
                if n < 5 {
                    PathClass::Bad
                } else {
                    as_class_exec(cpf_cnpj_field_exec(&p[4]))
                }
            } else {
                as_class_exec(identificacao_tomador_field_exec(&p[3]))
            }
        } else if is_lit(&p[2], "Endereco") {
            if n < 4 {
                PathClass::Bad
            } else {
                as_class_exec(endereco_tomador_field_exec(&p[3]))
            }
        } else {
            as_class_exec(tomador_field_exec(&p[2]))
        }
    } else {
        PathClass::Ignore
    }
}

/// The name of a field, as errors give it.
pub open spec fn field_name(i: int) -> Seq<char> {
    if i == 0 {
        "numero"@
    } else if i == 1 {
        "codigo_verificacao"@
    } else if i == 2 {
        "data_emissao"@
    } else if i == 3 {
        "competencia"@
    } else if i == 4 {
        "natureza_operacao"@
    } else if i == 5 {
        "regime_especial_tributacao"@
    } else if i == 6 {
        "optante_simples_nacional"@
    } else if i == 7 {
        "incentivador_cultural"@
    } else if i == 8 {
        "outras_informacoes"@
    } else if i == 9 {
        "valor_servicos"@
    } else if i == 10 {
        "aliquota_iss"@
    } else if i == 11 {
        "valor_iss"@
    } else if i == 12 {
        "codigo_tributacao_municipio"@
    } else if i == 13 {
        "discriminacao"@
    } else if i == 14 {
        "codigo_municipio"@
    } else if i == 15 {
        "cnpj_prestador"@
    } else if i == 16 {
        "inscricao_municipal_prestador"@
    } else if i == 17 {
        "razao_social_prestador"@
    } else if i == 18 {
        "logradouro_prestador"@
    } else if i == 19 {
        "numero_prestador"@
    } else if i == 20 {
        "complemento_prestador"@
    } else if i == 21 {
        "bairro_prestador"@
    } else if i == 22 {
        "codigo_municipio_prestador"@
    } else if i == 23 {
        "uf_prestador"@
    } else if i == 24 {
        "cep_prestador"@
    } else if i == 25 {
        "cnpj_tomador"@
    } else if i == 26 {
        "inscricao_municipal_tomador"@
    } else if i == 27 {
        "razao_social_tomador"@
    } else if i == 28 {
        "logradouro_tomador"@
    } else if i == 29 {
        "numero_tomador"@
    } else if i == 30 {
        "complemento_tomador"@
    } else if i == 31 {
        "bairro_tomador"@
    } else if i == 32 {
        "codigo_municipio_tomador"@
    } else if i == 33 {
        "uf_tomador"@
    } else if i == 34 {
        "cep_tomador"@
    } else {
        Seq::empty()
    }
}

fn field_name_exec(i: usize) -> (r: &'static str)
    requires
        i < N_FIELDS,
    ensures
        r@ == field_name(i as int),
{
    if i == 0 {
        "numero"
    } else if i == 1 {
        "codigo_verificacao"
    } else if i == 2 {
        "data_emissao"
    } else if i == 3 {
        "competencia"
    } else if i == 4 {
        "natureza_operacao"
    } else if i == 5 {
        "regime_especial_tributacao"
    } else if i == 6 {
        "optante_simples_nacional"
    } else if i == 7 {
        "incentivador_cultural"
    } else if i == 8 {
        "outras_informacoes"
    } else if i == 9 {
        "valor_servicos"
    } else if i == 10 {
        "aliquota_iss"
    } else if i == 11 {
        "valor_iss"
    } else if i == 12 {
        "codigo_tributacao_municipio"
    } else if i == 13 {
        "discriminacao"
    } else if i == 14 {
        "codigo_municipio"
    } else if i == 15 {
        "cnpj_prestador"
    } else if i == 16 {
        "inscricao_municipal_prestador"
    } else if i == 17 {
        "razao_social_prestador"
    } else if i == 18 {
        "logradouro_prestador"
    } else if i == 19 {
        "numero_prestador"
    } else if i == 20 {
        "complemento_prestador"
    } else if i == 21 {
        "bairro_prestador"
    } else if i == 22 {
        "codigo_municipio_prestador"
    } else if i == 23 {
        "uf_prestador"
    } else if i == 24 {
        "cep_prestador"
    } else if i == 25 {
        "cnpj_tomador"
    } else if i == 26 {
        "inscricao_municipal_tomador"
    } else if i == 27 {
        "razao_social_tomador"
    } else if i == 28 {
        "logradouro_tomador"
    } else if i == 29 {
        "numero_tomador"
    } else if i == 30 {
        "complemento_tomador"
    } else if i == 31 {
        "bairro_tomador"
    } else if i == 32 {
        "codigo_municipio_tomador"
    } else if i == 33 {
        "uf_tomador"
    } else {
        "cep_tomador"
    }
}

/// An invoice cannot be read without this field.
pub open spec fn is_required(i: int) -> bool {
    0 <= i < N_FIELDS && !(i == 16 || i == 20 || i == 25 || i == 26 || i == 30 || i == 34)
}

fn is_required_exec(i: usize) -> (r: bool)
    ensures
        r == is_required(i as int),
{
    i < N_FIELDS && !(i == 16 || i == 20 || i == 25 || i == 26 || i == 30 || i == 34)
}

/// The state of reading an invoice: the elements open, the fields found so
/// far, the error that stopped the reading, and whether the end was reached.
pub struct ReadState {
    pub stack: Seq<Seq<char>>,
    pub fields: Seq<Option<Seq<char>>>,
    pub error: Option<Seq<char>>,
    pub finished: bool,
}

pub open spec fn initial_state() -> ReadState {
    ReadState {
        stack: Seq::empty(),
        fields: Seq::new(N_FIELDS as nat, |i: int| None::<Seq<char>>),
        error: None,
        finished: false,
    }
}

/// One event read: elements open and close in pairs, a text fills the field
/// its path names (a later text replaces an earlier one), and anything else
/// stops the reading with an error.
pub open spec fn step(st: ReadState, r: ReadView) -> ReadState {
    if st.error is Some || st.finished {
        st
    } else {
        match r {
            ReadView::Start(n) => ReadState { stack: st.stack.push(n), ..st },
            ReadView::End(n) => if st.stack.len() > 0 && st.stack.last() == n {
                ReadState { stack: st.stack.drop_last(), ..st }
            } else {
                ReadState { error: Some("bad xml"@), ..st }
            },
            ReadView::Text(t) => match classify(st.stack) {
                PathClass::Field(i) => ReadState { fields: st.fields.update(i as int, Some(t)), ..st },
                PathClass::Ignore => st,
                PathClass::Bad => ReadState { error: Some("bad xml"@), ..st },
                PathClass::Unexpected => ReadState {
                    error: Some("unexpected xml "@ + st.stack[0]),
                    ..st
                },
            },
            ReadView::Eof => ReadState { finished: true, ..st },
            ReadView::Other => ReadState { error: Some("unexpected xml"@), ..st },
            ReadView::Error(m) => ReadState { error: Some("error in xml: "@ + m), ..st },
        }
    }
}

pub open spec fn run_reads(rs: Seq<ReadView>) -> ReadState
    decreases rs.len(),
{
    if rs.len() == 0 {
        initial_state()
    } else {
        step(run_reads(rs.drop_last()), rs.last())
    }
}

/// The first required field from `from` on that was not found.
pub open spec fn first_missing(fields: Seq<Option<Seq<char>>>, from: int) -> Option<int>
    decreases N_FIELDS - from,
{
    if from < 0 || from >= N_FIELDS {
        None
    } else if is_required(from) && fields[from] is None {
        Some(from)
    } else {
        first_missing(fields, from + 1)
    }
}

/// What reading gives: the fields, or the error that stopped it, or the
/// first required field that is missing.
pub open spec fn nfse_outcome(rs: Seq<ReadView>) -> Result<Seq<Option<Seq<char>>>, Seq<char>> {
    let st = run_reads(rs);
    match st.error {
        Some(e) => Err(e),
        None => match first_missing(st.fields, 0) {
            Some(j) => Err("missing "@ + field_name(j)),
            None => Ok(st.fields),
        },
    }
}

pub open spec fn opts_view(v: Seq<Option<String>>) -> Seq<Option<Seq<char>>> {
    v.map_values(|o: Option<String>| opt_view(o))
}

/// An issued invoice as the counterparty returns it.
#[derive(PartialEq, Debug)]
pub struct Nfse {
    pub numero: String,
    pub codigo_verificacao: String,
    pub data_emissao: String,
    pub competencia: String,
    pub natureza_operacao: String,
    pub regime_especial_tributacao: String,
    pub optante_simples_nacional: String,
    pub incentivador_cultural: String,
    pub outras_informacoes: String,
    pub valor_servicos: String,
    pub aliquota_iss: String,
    pub valor_iss: String,
    pub codigo_tributacao_municipio: String,
    pub discriminacao: String,
    pub codigo_municipio: String,
    pub cnpj_prestador: String,
    pub inscricao_municipal_prestador: Option<String>,
    pub razao_social_prestador: String,
    pub logradouro_prestador: String,
    pub numero_prestador: String,
    pub complemento_prestador: Option<String>,
    pub bairro_prestador: String,
    pub codigo_municipio_prestador: String,
    pub uf_prestador: String,
    pub cep_prestador: String,
    pub cnpj_tomador: Option<String>,
    pub inscricao_municipal_tomador: Option<String>,
    pub razao_social_tomador: String,
    pub logradouro_tomador: String,
    pub numero_tomador: String,
    pub complemento_tomador: Option<String>,
    pub bairro_tomador: String,
    pub codigo_municipio_tomador: String,
    pub uf_tomador: String,
    pub cep_tomador: Option<String>,
}

impl Nfse {
    /// The invoice holds these fields, in the order of [`field_name`].
    pub open spec fn holds_fields(&self, fs: Seq<Option<Seq<char>>>) -> bool {
        &&& fs[0] == Some(self.numero@)
        &&& fs[1] == Some(self.codigo_verificacao@)
        &&& fs[2] == Some(self.data_emissao@)
        &&& fs[3] == Some(self.competencia@)
        &&& fs[4] == Some(self.natureza_operacao@)
        &&& fs[5] == Some(self.regime_especial_tributacao@)
        &&& fs[6] == Some(self.optante_simples_nacional@)
        &&& fs[7] == Some(self.incentivador_cultural@)
        &&& fs[8] == Some(self.outras_informacoes@)
        &&& fs[9] == Some(self.valor_servicos@)
        &&& fs[10] == Some(self.aliquota_iss@)
        &&& fs[11] == Some(self.valor_iss@)
        &&& fs[12] == Some(self.codigo_tributacao_municipio@)
        &&& fs[13] == Some(self.discriminacao@)
        &&& fs[14] == Some(self.codigo_municipio@)
        &&& fs[15] == Some(self.cnpj_prestador@)
        &&& opt_view(self.inscricao_municipal_prestador) == fs[16]
        &&& fs[17] == Some(self.razao_social_prestador@)
        &&& fs[18] == Some(self.logradouro_prestador@)
        &&& fs[19] == Some(self.numero_prestador@)
        &&& opt_view(self.complemento_prestador) == fs[20]
        &&& fs[21] == Some(self.bairro_prestador@)
        &&& fs[22] == Some(self.codigo_municipio_prestador@)
        &&& fs[23] == Some(self.uf_prestador@)
        &&& fs[24] == Some(self.cep_prestador@)
        &&& opt_view(self.cnpj_tomador) == fs[25]
        &&& opt_view(self.inscricao_municipal_tomador) == fs[26]
        &&& fs[27] == Some(self.razao_social_tomador@)
        &&& fs[28] == Some(self.logradouro_tomador@)
        &&& fs[29] == Some(self.numero_tomador@)
        &&& opt_view(self.complemento_tomador) == fs[30]
        &&& fs[31] == Some(self.bairro_tomador@)
        &&& fs[32] == Some(self.codigo_municipio_tomador@)
        &&& fs[33] == Some(self.uf_tomador@)
        &&& opt_view(self.cep_tomador) == fs[34]
    }

    /// An invoice from the events of its document. A text fills the field
    /// that its element path names; the first misplaced event stops the
    /// reading with an error, and every required field must be found.
    #[verifier::spinoff_prover]
    pub fn from_reads(reads: &Vec<XmlRead>) -> (r: Result<Nfse, String>)
        ensures
            nfse_outcome(reads_view(reads@)) matches Err(e) ==> (r matches Err(x) && x@ == e),
            nfse_outcome(reads_view(reads@)) matches Ok(fs) ==> (r matches Ok(n) && n.holds_fields(fs)),
    {
        let mut stack: Vec<String> = Vec::new();
        let mut fields: Vec<Option<String>> = Vec::new();
        let mut f: usize = 0;
        while f < N_FIELDS
            invariant
                f <= N_FIELDS,
                fields@.len() == f,
                forall|j: int| 0 <= j < f ==> (#[trigger] fields@[j]) is None,
            decreases N_FIELDS - f,
        {
            fields.push(None);
            f += 1;
        }
        let mut error: Option<String> = None;
        let mut finished = false;
        let ghost rs = reads_view(reads@);
        proof {
            assert(opts_view(fields@) =~= initial_state().fields);
            assert(strings_view(stack@) =~= Seq::<Seq<char>>::empty());
            assert(rs.subrange(0, 0) =~= Seq::<ReadView>::empty());
        }
        let mut i: usize = 0;
        while i < reads.len()
            invariant
                i <= reads@.len(),
                rs == reads_view(reads@),
                fields@.len() == N_FIELDS,
                run_reads(rs.subrange(0, i as int)) == (ReadState {
                    stack: strings_view(stack@),
                    fields: opts_view(fields@),
                    error: opt_view(error),
                    finished,
                }),
            decreases reads.len() - i,
        {
            proof {
                assert(rs.subrange(0, i + 1).drop_last() =~= rs.subrange(0, i as int));
                assert(rs.subrange(0, i + 1).last() == reads@[i as int]@);
            }
            let ghost st = run_reads(rs.subrange(0, i as int));
            if error.is_none() && !finished {
                match &reads[i] {
                    XmlRead::Start(n) => {
                        stack.push(n.clone());
                        proof {
                            assert(strings_view(stack@) =~= st.stack.push(n@));
                        }
                    },
                    XmlRead::End(n) => {
                        let k = stack.len();
                        if k > 0 && stack[k - 1] == *n {
                            proof {
                                assert(st.stack.last() == stack@[k - 1]@);
                            }
                            stack.pop();
                            proof {
                                assert(strings_view(stack@) =~= st.stack.drop_last());
                            }
                        } else {
                            proof {
                                if k > 0 {
                                    assert(st.stack.last() == stack@[k - 1]@);
                                }
                            }
                            error = Some(String::from_str("bad xml"));
                        }
                    },
                    XmlRead::Text(t) => {
                        match classify_path(&stack) {
                            PathClass::Field(k) => {
                                proof {
                                    lemma_classify_in_range(st.stack);
                                }
                                fields.set(k, Some(t.clone()));
                                proof {
                                    assert(opts_view(fields@) =~= st.fields.update(
                                        k as int,
                                        Some(t@),
                                    ));
                                }
                            },
                            PathClass::Ignore => {},
                            PathClass::Bad => {
                                error = Some(String::from_str("bad xml"));
                            },
                            PathClass::Unexpected => {
                                let mut m = String::from_str("unexpected xml ");
                                m.append(stack[0].as_str());
                                proof {
                                    assert(st.stack[0] == stack@[0]@);
                                }
                                error = Some(m);
                            },
                        }
                    },
                    XmlRead::Eof => {
                        finished = true;
                    },
                    XmlRead::Other => {
                        error = Some(String::from_str("unexpected xml"));
                    },
                    XmlRead::Error(msg) => {
                        let mut m = String::from_str("error in xml: ");
                        m.append(msg.as_str());
                        error = Some(m);
                    },
                }
            }
            i += 1;
        }
        proof {
            assert(rs.subrange(0, reads@.len() as int) =~= rs);
        }
        match error {
            Some(e) => {
                return Err(e);
            },
            None => {},
        }
        let ghost fs = opts_view(fields@);
        let mut j: usize = 0;
        while j < N_FIELDS
            invariant
                j <= N_FIELDS,
                fs == opts_view(fields@),
                fields@.len() == N_FIELDS,
                first_missing(fs, 0) == first_missing(fs, j as int),
                rs == reads_view(reads@),
                run_reads(rs).error is None,
                run_reads(rs).fields == fs,
            decreases N_FIELDS - j,
        {
            if is_required_exec(j) && fields[j].is_none() {
                proof {
                    assert(fs[j as int] == opt_view(fields@[j as int]));
                    assert(fs[j as int] is None);
                    assert(first_missing(fs, j as int) == Some(j as int));
                }
                let mut m = String::from_str("missing ");
                m.append(field_name_exec(j));
                return Err(m);
            }
            proof {
                assert(fs[j as int] == opt_view(fields@[j as int]));
            }
            j += 1;
        }
        proof {
            assert forall|k: int| 0 <= k < N_FIELDS && is_required(k) implies (
            #[trigger] fields@[k]) is Some by {
                lemma_none_missing(fs, 0, k);
                assert(fs[k] == opt_view(fields@[k]));
            }
        }
        Ok(Nfse {
            numero: take_text(&fields, 0),
            codigo_verificacao: take_text(&fields, 1),
            data_emissao: take_text(&fields, 2),
            competencia: take_text(&fields, 3),
            natureza_operacao: take_text(&fields, 4),
            regime_especial_tributacao: take_text(&fields, 5),
            optante_simples_nacional: take_text(&fields, 6),
            incentivador_cultural: take_text(&fields, 7),
            outras_informacoes: take_text(&fields, 8),
            valor_servicos: take_text(&fields, 9),
            aliquota_iss: take_text(&fields, 10),
            valor_iss: take_text(&fields, 11),
            codigo_tributacao_municipio: take_text(&fields, 12),
            discriminacao: take_text(&fields, 13),
            codigo_municipio: take_text(&fields, 14),
            cnpj_prestador: take_text(&fields, 15),
            inscricao_municipal_prestador: take_opt(&fields, 16),
            razao_social_prestador: take_text(&fields, 17),
            logradouro_prestador: take_text(&fields, 18),
            numero_prestador: take_text(&fields, 19),
            complemento_prestador: take_opt(&fields, 20),
            bairro_prestador: take_text(&fields, 21),
            codigo_municipio_prestador: take_text(&fields, 22),
            uf_prestador: take_text(&fields, 23),
            cep_prestador: take_text(&fields, 24),
            cnpj_tomador: take_opt(&fields, 25),
            inscricao_municipal_tomador: take_opt(&fields, 26),
            razao_social_tomador: take_text(&fields, 27),
            logradouro_tomador: take_text(&fields, 28),
            numero_tomador: take_text(&fields, 29),
            complemento_tomador: take_opt(&fields, 30),
            bairro_tomador: take_text(&fields, 31),
            codigo_municipio_tomador: take_text(&fields, 32),
            uf_tomador: take_text(&fields, 33),
            cep_tomador: take_opt(&fields, 34),
        })
    }

    /// A text that tells invoices apart and matches the record they were
    /// issued for: customer name, description and service value, separated
    /// by `|`.
    pub fn uniquely_identify(&self) -> (r: String)
        ensures
            r@ == self.razao_social_tomador@ + seq!['|'] + self.discriminacao@ + seq!['|']
                + self.valor_servicos@,
    {
        let mut r = self.razao_social_tomador.clone();
        r.append("|");
        r.append(self.discriminacao.as_str());
        r.append("|");
        r.append(self.valor_servicos.as_str());
        proof {
            reveal_strlit("|");
        }
        r
    }

    /// Reads an invoice out of XML text. The reader gives at most one event
    /// per byte of input and then its end, so no more are asked for.
    pub fn from_xml_string(xml: &str) -> (r: Result<Nfse, String>) {
        let mut reader = xml_reader(xml);
        let mut reads: Vec<XmlRead> = Vec::new();
        let limit = if xml.len() < usize::MAX {
            xml.len() + 1
        } else {
            xml.len()
        };
        let mut k: usize = 0;
        let mut done = false;
        while k < limit && !done
            invariant
                k <= limit,
            decreases limit - k,
        {
            let r = read_xml_event(&mut reader);
            done = match r {
                XmlRead::Eof => true,
                XmlRead::Other => true,
                XmlRead::Error(_) => true,
                _ => false,
            };
            reads.push(r);
            k += 1;
        }
        Nfse::from_reads(&reads)
    }
}

proof fn lemma_classify_in_range(p: Seq<Seq<char>>)
    ensures
        classify(p) matches PathClass::Field(i) ==> i < N_FIELDS,
{
}

proof fn lemma_none_missing(fs: Seq<Option<Seq<char>>>, from: int, k: int)
    requires
        0 <= from <= k < N_FIELDS,
        is_required(k),
        first_missing(fs, from) is None,
    ensures
        fs[k] is Some,
    decreases k - from,
{
    if from < k {
        lemma_none_missing(fs, from + 1, k);
    }
}

fn take_text(fields: &Vec<Option<String>>, j: usize) -> (r: String)
    requires
        j < fields@.len(),
        fields@[j as int] is Some,
    ensures
        Some(r@) == opt_view(fields@[j as int]),
{
    match &fields[j] {
        Some(s) => s.clone(),
        None => String::new(),
    }
}

fn take_opt(fields: &Vec<Option<String>>, j: usize) -> (r: Option<String>)
    requires
        j < fields@.len(),
    ensures
        opt_view(r) == opt_view(fields@[j as int]),
{
    match &fields[j] {
        Some(s) => Some(s.clone()),
        None => None,
    }
}

/// The first position from `i` on where `pat` occurs in `s`.
pub open spec fn first_occurrence_from(s: Seq<char>, pat: Seq<char>, i: int) -> Option<int>
    decreases s.len() + 1 - i,
{
    if i < 0 || i + pat.len() > s.len() {
        None
    } else if s.subrange(i, i + pat.len()) == pat {
        Some(i)
    } else {
        first_occurrence_from(s, pat, i + 1)
    }
}

/// What stands before the national access key in an invoice.
pub const ACCESS_KEY_HEAD: &'static str = "<OutrasInformacoes>Chave de acesso no Ambiente de Dados Nacional: ";

/// What stands after the national access key in an invoice.
pub const ACCESS_KEY_TAIL: &'static str = ".</OutrasInformacoes>";

/// The length of a national access key.
pub const ACCESS_KEY_LEN: usize = 50;

/// The national access key in an invoice's text: what stands between the
/// first [`ACCESS_KEY_HEAD`] and the first [`ACCESS_KEY_TAIL`] after it.
pub open spec fn access_key_of(xml: Seq<char>) -> Result<Seq<char>, Seq<char>> {
    match first_occurrence_from(xml, ACCESS_KEY_HEAD@, 0) {
        None => Err("can not find chave_acesso"@),
        Some(i) => {
            let rest = xml.subrange(i + ACCESS_KEY_HEAD@.len(), xml.len() as int);
            match first_occurrence_from(rest, ACCESS_KEY_TAIL@, 0) {
                None => Err("can not find chave_acesso"@),
                Some(j) => if j == ACCESS_KEY_LEN {
                    Ok(rest.subrange(0, j))
                } else {
                    Err("bad size for chave_acesso"@)
                },
            }
        },
    }
}

fn chars_of(s: &str) -> (r: Vec<char>)
    ensures
        r@ == s@,
{
    let n = s.unicode_len();
    let mut r: Vec<char> = Vec::new();
    let mut i: usize = 0;
    while i < n
        invariant
            n == s@.len(),
            i <= n,
            r@ == s@.subrange(0, i as int),
        decreases n - i,
    {
        r.push(s.get_char(i));
        proof {
            assert(r@ =~= s@.subrange(0, i + 1));
        }
        i += 1;
    }
    proof {
        assert(s@.subrange(0, n as int) =~= s@);
    }
    r
}

/// The first position from `from` on where `pat` occurs in `s`.
fn find_from(s: &Vec<char>, pat: &Vec<char>, from: usize) -> (r: Option<usize>)
    ensures
        r matches Some(i) ==> first_occurrence_from(s@, pat@, from as int) == Some(i as int),
        r is None ==> first_occurrence_from(s@, pat@, from as int) is None,
        r matches Some(i) ==> i + pat@.len() <= s@.len(),
{
    let n = s.len();
    let m = pat.len();
    let mut i = from;
    while i <= n && m <= n - i
        invariant
            n == s@.len(),
            m == pat@.len(),
            from <= i,
            first_occurrence_from(s@, pat@, from as int) == first_occurrence_from(s@, pat@, i as int),
        decreases n + 1 - i,
    {
        let mut k: usize = 0;
        let mut same = true;
        while k < m && same
            invariant
                i + m <= n,
                n == s@.len(),
                m == pat@.len(),
                k <= m,
                same == (forall|t: int| 0 <= t < k ==> s@[i + t] == pat@[t]),
            decreases m - k,
        {
            if s[i + k] != pat[k] {
                same = false;
            }
            k += 1;
        }
        if same {
            assert(s@.subrange(i as int, i + m) =~= pat@);
            return Some(i);
        }
        proof {
            let t = choose|t: int| 0 <= t < k && s@[i + t] != pat@[t];
            assert(s@.subrange(i as int, i + m)[t] != pat@[t]);
        }
        i += 1;
    }
    None
}

/// Reads the national access key out of an invoice's text.
pub fn access_key(xml: &str) -> (r: Result<String, String>)
    ensures
        match access_key_of(xml@) {
            Ok(k) => r matches Ok(x) && x@ == k,
            Err(e) => r matches Err(x) && x@ == e,
        },
{
    let s = chars_of(xml);
    let head = chars_of(ACCESS_KEY_HEAD);
    let tail = chars_of(ACCESS_KEY_TAIL);
    let n = s.len();
    match find_from(&s, &head, 0) {
        None => Err(String::from_str("can not find chave_acesso")),
        Some(i) => {
            let start = i + head.len();
            let rest = xml.substring_char(start, xml.unicode_len());
            let rest_chars = chars_of(rest);
            proof {
                assert(first_occurrence_from(xml@, ACCESS_KEY_HEAD@, 0) == Some(i as int));
                assert(rest@ == xml@.subrange(i + ACCESS_KEY_HEAD@.len(), xml@.len() as int));
            }
            match find_from(&rest_chars, &tail, 0) {
                None => Err(String::from_str("can not find chave_acesso")),
                Some(j) => {
                    proof {
                        assert(first_occurrence_from(rest@, ACCESS_KEY_TAIL@, 0) == Some(j as int));
                    }
                    if j == ACCESS_KEY_LEN {
                        Ok(String::from_str(rest.substring_char(0, j)))
                    } else {
                        Err(String::from_str("bad size for chave_acesso"))
                    }
                },
            }
        },
    }
}

} // verus!
