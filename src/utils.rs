//! Certificate text, record identifiers and the submission envelope.
use vstd::prelude::*;
use crate::money::{is_digit, digit_char};
pub use crate::xml::xml_events_to_xml_string;

verus! {

/// Relies on `rand::Rng::gen_range` over `rand::thread_rng()`: a number in
/// `0..n`; it panics on an empty range.
#[verifier::external_body]
fn random_below(n: u64) -> (r: u64)
    requires
        n > 0,
    ensures
        r < n,
{
    rand::Rng::gen_range(&mut rand::thread_rng(), 0..n)
}

/// The length of a generated record identifier.
pub const RANDOM_RPS_LEN: usize = 12;

/// A record identifier from decimal digits, most significant first.
pub fn rps_id_from_digits(digits: &Vec<u64>) -> (r: String)
    requires
        forall|i: int| 0 <= i < digits@.len() ==> #[trigger] digits@[i] < 10,
    ensures
        r@.len() == digits@.len(),
        forall|i: int| 0 <= i < r@.len() ==> #[trigger] r@[i] == digit_char(digits@[i] as nat),
{
    let mut r = String::new();
    let mut i: usize = 0;
    while i < digits.len()
        invariant
            i <= digits@.len(),
            r@.len() == i,
            forall|k: int| 0 <= k < digits@.len() ==> #[trigger] digits@[k] < 10,
            forall|j: int| 0 <= j < i ==> #[trigger] r@[j] == digit_char(digits@[j] as nat),
        decreases digits.len() - i,
    {
        let ghost before = r@;
        r.append(digit_str(digits[i]));
        proof {
            assert(r@ =~= before.push(digit_char(digits@[i as int] as nat)));
        }
        i += 1;
    }
    r
}

/// A random record identifier: twelve decimal digits.
pub fn generate_random_rps() -> (r: String)
    ensures
        r@.len() == RANDOM_RPS_LEN,
        forall|i: int| 0 <= i < r@.len() ==> is_digit(#[trigger] r@[i]),
{
    let mut digits: Vec<u64> = Vec::new();
    let mut i: usize = 0;
    while i < RANDOM_RPS_LEN
        invariant
            i <= RANDOM_RPS_LEN,
            digits@.len() == i,
            forall|j: int| 0 <= j < digits@.len() ==> #[trigger] digits@[j] < 10,
        decreases RANDOM_RPS_LEN - i,
    {
        digits.push(random_below(10));
        i += 1;
    }
    let r = rps_id_from_digits(&digits);
    proof {
        assert forall|k: int| 0 <= k < r@.len() implies is_digit(#[trigger] r@[k]) by {
            assert(digits@[k] < 10);
            assert(r@[k] == digit_char(digits@[k] as nat));
        }
    }
    r
}

fn digit_str(d: u64) -> (r: &'static str)
    requires
        d < 10,
    ensures
        r@ == seq![digit_char(d as nat)],
{
    proof {
        reveal_strlit("0");
        reveal_strlit("1");
        reveal_strlit("2");
        reveal_strlit("3");
        reveal_strlit("4");
        reveal_strlit("5");
        reveal_strlit("6");
        reveal_strlit("7");
        reveal_strlit("8");
        reveal_strlit("9");
    }
    if d == 0 {
        "0"
    } else if d == 1 {
        "1"
    } else if d == 2 {
        "2"
    } else if d == 3 {
        "3"
    } else if d == 4 {
        "4"
    } else if d == 5 {
        "5"
    } else if d == 6 {
        "6"
    } else if d == 7 {
        "7"
    } else if d == 8 {
        "8"
    } else {
        "9"
    }
}

/// A line is a PEM boundary (`-----BEGIN ...`, `-----END ...`).
pub open spec fn is_boundary(line: Seq<char>) -> bool {
    line.len() >= 5 && line.subrange(0, 5) == seq!['-', '-', '-', '-', '-']
}

/// What a line contributes: nothing for a boundary, the line otherwise.
pub open spec fn kept(line: Seq<char>) -> Seq<char> {
    if is_boundary(line) {
        Seq::empty()
    } else {
        line
    }
}

/// A line that a line feed ends loses the carriage return before it.
pub open spec fn strip_cr(line: Seq<char>) -> Seq<char> {
    if line.len() > 0 && line.last() == '\r' {
        line.drop_last()
    } else {
        line
    }
}

/// Reading the text from the left: the kept text of the finished lines, and
/// the line under way.
pub open spec fn cert_scan(s: Seq<char>) -> (Seq<char>, Seq<char>)
    decreases s.len(),
{
    if s.len() == 0 {
        (Seq::empty(), Seq::empty())
    } else {
        let (done, line) = cert_scan(s.drop_last());
        if s.last() == '\n' {
            (done + kept(strip_cr(line)), Seq::empty())
        } else {
            (done, line.push(s.last()))
        }
    }
}

/// The certificate body: every line but the boundaries, joined with nothing
/// between them.
pub open spec fn trimmed_certificate(s: Seq<char>) -> Seq<char> {
    cert_scan(s).0 + kept(cert_scan(s).1)
}

fn kept_line(line: &String) -> (r: String)
    ensures
        r@ == kept(line@),
{
    let n = line.as_str().unicode_len();
    if n >= 5 {
        let head = line.as_str().substring_char(0, 5);
        let mut boundary = true;
        let mut i: usize = 0;
        while i < 5
            invariant
                n == line@.len(),
                n >= 5,
                head@ == line@.subrange(0, 5),
                i <= 5,
                boundary == (forall|j: int| 0 <= j < i ==> head@[j] == '-'),
            decreases 5 - i,
        {
            if head.get_char(i) != '-' {
                boundary = false;
            }
            i += 1;
        }
        if boundary {
            assert(line@.subrange(0, 5) =~= seq!['-', '-', '-', '-', '-']);
            return String::new();
        }
    }
    line.clone()
}

/// Joins the lines of a PEM certificate, leaving out its boundary lines.
pub fn trim_x509_certificate(cert: &str) -> (r: String)
    ensures
        r@ == trimmed_certificate(cert@),
{
    let n = cert.unicode_len();
    let mut done = String::new();
    let mut line = String::new();
    let mut i: usize = 0;
    while i < n
        invariant
            n == cert@.len(),
            i <= n,
            cert_scan(cert@.subrange(0, i as int)) == (done@, line@),
        decreases n - i,
    {
        let c = cert.get_char(i);
        proof {
            assert(cert@.subrange(0, i + 1).drop_last() =~= cert@.subrange(0, i as int));
        }
        if c == '\n' {
            let len = line.as_str().unicode_len();
            let body = if len > 0 && line.as_str().get_char(len - 1) == '\r' {
                String::from_str(line.as_str().substring_char(0, len - 1))
            } else {
                line.clone()
            };
            proof {
                assert(body@ =~= strip_cr(line@));
            }
            let k = kept_line(&body);
            done.append(k.as_str());
            line = String::new();
        } else {
            let ghost before = line@;
            let piece = cert.substring_char(i, i + 1);
            line.append(piece);
            proof {
                assert(line@ =~= before.push(c));
            }
        }
        i += 1;
    }
    proof {
        assert(cert@.subrange(0, n as int) =~= cert@);
    }
    let k = kept_line(&line);
    done.append(k.as_str());
    done
}

/// What comes before the batch document in the submission envelope.
pub const ENVELOPE_HEAD: &'static str = "<soapenv:Envelope xmlns:soapenv=\"http://schemas.xmlsoap.org/soap/envelope/\" xmlns:ws=\"http://ws.bhiss.pbh.gov.br\"><soapenv:Body><ws:RecepcionarLoteRpsRequest><nfseCabecMsg><![CDATA[<?xml version=\"1.0\" encoding=\"UTF-8\"?><cabecalho xmlns=\"http://www.abrasf.org.br/nfse.xsd\" versao=\"1.00\"><versaoDados>1.00</versaoDados></cabecalho>]]></nfseCabecMsg><nfseDadosMsg><![CDATA[<?xml version=\"1.0\" encoding=\"UTF-8\"?>";

/// What comes after the batch document in the submission envelope.
pub const ENVELOPE_TAIL: &'static str = "]]></nfseDadosMsg></ws:RecepcionarLoteRpsRequest></soapenv:Body></soapenv:Envelope>";

/// The SOAP envelope of a batch submission around the document `content`.
pub fn recepcionar_lote_rps_request_wrapper(content: &str) -> (r: String)
    ensures
        r@ == ENVELOPE_HEAD@ + content@ + ENVELOPE_TAIL@,
{
    let mut r = String::from_str(ENVELOPE_HEAD);
    r.append(content);
    r.append(ENVELOPE_TAIL);
    r
}

} // verus!
