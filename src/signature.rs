//! The signature context: one signing operation, from a loaded payload to an
//! enveloped `Signature` block.
use vstd::prelude::*;
use crate::algorithms::{CanonicalizationAlgorithm, DigestAlgorithm, SignatureAlgorithm, SigningError};
use crate::xml::{
    XmlEvent, EventView, events_view, attr_element_view, text_element_view, open_view,
    push_event, push_events, push_text_element, push_attr_element, start_event, start_event_with,
    end_event, xml_events_to_xml_string, document_text, open_elements, is_well_formed,
};

verus! {

/// Namespace of XML digital signatures.
pub const XMLDSIG_NAMESPACE: &'static str = "http://www.w3.org/2000/09/xmldsig#";

/// The value of an [`XmlSignature`].
pub struct SignatureState {
    pub canonicalization_method: CanonicalizationAlgorithm,
    pub signature_method: SignatureAlgorithm,
    pub digest_method: DigestAlgorithm,
    pub certificate: Seq<char>,
    pub payload_uri: Option<Seq<char>>,
    pub payload: Option<Seq<char>>,
    pub digest_value: Option<Seq<char>>,
    pub signature_value: Option<Seq<char>>,
}

impl SignatureState {
    /// `load` has been called.
    pub open spec fn is_loaded(&self) -> bool {
        self.payload_uri is Some && self.payload is Some
    }

    /// `sign` has completed.
    pub open spec fn is_signed(&self) -> bool {
        self.is_loaded() && self.digest_value is Some && self.signature_value is Some
    }

    /// This context is `ctx` loaded with `uri` and `payload`, and signed.
    pub open spec fn is_signature_over(&self, ctx: SignatureState, uri: Seq<char>, payload: Seq<
        char,
    >) -> bool {
        &&& self.canonicalization_method == ctx.canonicalization_method
        &&& self.signature_method == ctx.signature_method
        &&& self.digest_method == ctx.digest_method
        &&& self.certificate == ctx.certificate
        &&& self.payload_uri == Some(uri)
        &&& self.payload == Some(payload)
        &&& self.digest_value == Some(self.payload_digest())
        &&& self.signature_value == Some(self.signature_method.signature_of(self.signed_info_text()))
    }

    /// The serialized `SignedInfo` block that signing a loaded context signs:
    /// it declares its namespace and holds the digest of the payload.
    pub open spec fn signed_info_text(&self) -> Seq<char> {
        document_text(
            signed_info_view(
                self.canonicalization_method.identifier(),
                self.signature_method.identifier(),
                self.digest_method.identifier(),
                self.payload_uri->0,
                self.payload_digest(),
                true,
            ),
        )
    }

    /// Signing this loaded context succeeds.
    pub open spec fn can_sign(&self) -> bool {
        self.signature_method.can_sign(self.signed_info_text())
    }

    /// The context `ctx` loaded with `uri` and `payload`.
    pub open spec fn loaded_with(&self, uri: Seq<char>, payload: Seq<char>) -> SignatureState {
        SignatureState { payload_uri: Some(uri), payload: Some(payload), ..*self }
    }

    /// The digest of the loaded payload: canonicalized, then digested.
    pub open spec fn payload_digest(&self) -> Seq<char> {
        self.digest_method.digest_of(self.canonicalization_method.canonical(self.payload->0))
    }
}

/// The `SignedInfo` block over a reference and its digest; `xmlns` says
/// whether it declares the signature namespace itself.
pub open spec fn signed_info_view(
    c14n: Seq<char>,
    sig: Seq<char>,
    digest: Seq<char>,
    uri: Seq<char>,
    digest_value: Seq<char>,
    xmlns: bool,
) -> Seq<EventView> {
    seq![
        EventView::Start(
            "SignedInfo"@,
            if xmlns {
                seq![("xmlns"@, XMLDSIG_NAMESPACE@)]
            } else {
                Seq::empty()
            },
        ),
    ] + attr_element_view("CanonicalizationMethod"@, "Algorithm"@, c14n) + attr_element_view(
        "SignatureMethod"@,
        "Algorithm"@,
        sig,
    ) + seq![EventView::Start("Reference"@, seq![("URI"@, uri)]), open_view("Transforms"@)]
        + attr_element_view("Transform"@, "Algorithm"@, c14n) + seq![EventView::End("Transforms"@)]
        + attr_element_view("DigestMethod"@, "Algorithm"@, digest) + text_element_view(
        "DigestValue"@,
        digest_value,
    ) + seq![EventView::End("Reference"@), EventView::End("SignedInfo"@)]
}

/// The `Signature` block: its own namespace, the `SignedInfo` block without
/// one, the signature value and the certificate.
pub open spec fn signature_block_view(
    c14n: Seq<char>,
    sig: Seq<char>,
    digest: Seq<char>,
    uri: Seq<char>,
    digest_value: Seq<char>,
    signature_value: Seq<char>,
    certificate: Seq<char>,
) -> Seq<EventView> {
    seq![EventView::Start("Signature"@, seq![("xmlns"@, XMLDSIG_NAMESPACE@)])] + signed_info_view(
        c14n,
        sig,
        digest,
        uri,
        digest_value,
        false,
    ) + text_element_view("SignatureValue"@, signature_value) + seq![
        open_view("KeyInfo"@),
        open_view("X509Data"@),
    ] + text_element_view("X509Certificate"@, certificate) + seq![
        EventView::End("X509Data"@),
        EventView::End("KeyInfo"@),
        EventView::End("Signature"@),
    ]
}

impl SignatureState {
    /// The `SignedInfo` block of this context.
    pub open spec fn signed_info(&self, xmlns: bool) -> Seq<EventView> {
        signed_info_view(
            self.canonicalization_method.identifier(),
            self.signature_method.identifier(),
            self.digest_method.identifier(),
            self.payload_uri->0,
            self.digest_value->0,
            xmlns,
        )
    }

    /// The `Signature` block of this context.
    pub open spec fn signature_block(&self) -> Seq<EventView> {
        signature_block_view(
            self.canonicalization_method.identifier(),
            self.signature_method.identifier(),
            self.digest_method.identifier(),
            self.payload_uri->0,
            self.digest_value->0,
            self.signature_value->0,
            self.certificate,
        )
    }
}

/// One signing operation: created with its algorithms and certificate, then
/// loaded with a payload, then signed.
pub struct XmlSignature {
    canonicalization_method: CanonicalizationAlgorithm,
    signature_method: SignatureAlgorithm,
    digest_method: DigestAlgorithm,
    certificate: String,
    payload_uri: Option<String>,
    payload: Option<String>,
    digest_value: Option<String>,
    signature_value: Option<String>,
}

pub open spec fn opt_view(o: Option<String>) -> Option<Seq<char>> {
    match o {
        Some(s) => Some(s@),
        None => None,
    }
}

impl View for XmlSignature {
    type V = SignatureState;

    closed spec fn view(&self) -> SignatureState {
        SignatureState {
            canonicalization_method: self.canonicalization_method,
            signature_method: self.signature_method,
            digest_method: self.digest_method,
            certificate: self.certificate@,
            payload_uri: opt_view(self.payload_uri),
            payload: opt_view(self.payload),
            digest_value: opt_view(self.digest_value),
            signature_value: opt_view(self.signature_value),
        }
    }
}

fn clone_opt(o: &Option<String>) -> (r: Option<String>)
    ensures
        opt_view(r) == opt_view(*o),
{
    match o {
        Some(s) => Some(s.clone()),
        None => None,
    }
}

impl Clone for XmlSignature {
    fn clone(&self) -> (r: Self)
        ensures
            r@ == self@,
    {
        XmlSignature {
            canonicalization_method: self.canonicalization_method,
            signature_method: self.signature_method.clone(),
            digest_method: self.digest_method.clone(),
            certificate: self.certificate.clone(),
            payload_uri: clone_opt(&self.payload_uri),
            payload: clone_opt(&self.payload),
            digest_value: clone_opt(&self.digest_value),
            signature_value: clone_opt(&self.signature_value),
        }
    }
}

fn signed_info_events(
    c14n: &CanonicalizationAlgorithm,
    sig: &SignatureAlgorithm,
    digest: &DigestAlgorithm,
    uri: &String,
    digest_value: &String,
    xmlns: bool,
) -> (r: Vec<XmlEvent>)
    ensures
        events_view(r@) == signed_info_view(
            c14n.identifier(),
            sig.identifier(),
            digest.identifier(),
            uri@,
            digest_value@,
            xmlns,
        ),
{
    let mut events: Vec<XmlEvent> = Vec::new();
    if xmlns {
        push_event(&mut events, start_event_with("SignedInfo", "xmlns", XMLDSIG_NAMESPACE));
    } else {
        push_event(&mut events, start_event("SignedInfo"));
    }
    push_attr_element(&mut events, "CanonicalizationMethod", "Algorithm", c14n.as_str());
    push_attr_element(&mut events, "SignatureMethod", "Algorithm", sig.as_str());
    push_event(&mut events, start_event_with("Reference", "URI", uri.as_str()));
    push_event(&mut events, start_event("Transforms"));
    push_attr_element(&mut events, "Transform", "Algorithm", c14n.as_str());
    push_event(&mut events, end_event("Transforms"));
    push_attr_element(&mut events, "DigestMethod", "Algorithm", digest.as_str());
    push_text_element(&mut events, "DigestValue", digest_value.as_str());
    push_event(&mut events, end_event("Reference"));
    push_event(&mut events, end_event("SignedInfo"));
    proof {
        assert(events_view(events@) =~= signed_info_view(
            c14n.identifier(),
            sig.identifier(),
            digest.identifier(),
            uri@,
            digest_value@,
            xmlns,
        ));
    }
    events
}

impl XmlSignature {
    pub fn new(
        canonicalization_method: CanonicalizationAlgorithm,
        signature_method: SignatureAlgorithm,
        digest_method: DigestAlgorithm,
        certificate: String,
    ) -> (r: Self)
        ensures
            r@ == (SignatureState {
                canonicalization_method,
                signature_method,
                digest_method,
                certificate: certificate@,
                payload_uri: None,
                payload: None,
                digest_value: None,
                signature_value: None,
            }),
    {
        XmlSignature {
            canonicalization_method,
            signature_method,
            digest_method,
            certificate,
            payload_uri: None,
            payload: None,
            digest_value: None,
            signature_value: None,
        }
    }

    /// Stores the reference URI and the exact text that the signature covers.
    pub fn load(&mut self, uri: String, payload: String)
        ensures
            final(self)@ == (SignatureState {
                payload_uri: Some(uri@),
                payload: Some(payload@),
                ..old(self)@
            }),
    {
        self.payload_uri = Some(uri);
        self.payload = Some(payload);
    }

    /// Canonicalizes and digests the payload, then signs the serialized
    /// `SignedInfo` block (with its own namespace declaration). Where the key
    /// refuses, nothing changes.
    pub fn sign(&mut self) -> (r: Result<(), SigningError>)
        requires
            old(self)@.is_loaded(),
        ensures
            (r is Ok) == old(self)@.can_sign(),
            r is Err ==> final(self)@ == old(self)@,
            r is Ok ==> final(self)@ == (SignatureState {
                digest_value: Some(old(self)@.payload_digest()),
                signature_value: Some(
                    old(self)@.signature_method.signature_of(old(self)@.signed_info_text()),
                ),
                ..old(self)@
            }),
    {
        let payload = match &self.payload {
            Some(p) => p.clone(),
            None => String::new(),
        };
        let canonical = self.canonicalization_method.run(payload);
        let digest_value = self.digest_method.run(canonical);
        let uri = match &self.payload_uri {
            Some(u) => u.clone(),
            None => String::new(),
        };
        let events = signed_info_events(
            &self.canonicalization_method,
            &self.signature_method,
            &self.digest_method,
            &uri,
            &digest_value,
            true,
        );
        let signed_info = xml_events_to_xml_string(events.as_slice());
        match self.signature_method.run(signed_info) {
            Ok(signature_value) => {
                self.digest_value = Some(digest_value);
                self.signature_value = Some(signature_value);
                Ok(())
            },
            Err(e) => Err(e),
        }
    }

    /// Loads a fresh copy of this context with `uri` and `payload` and signs it.
    pub fn sign_payload(&self, uri: String, payload: String) -> (r: Result<XmlSignature, SigningError>)
        ensures
            (r is Ok) == self@.loaded_with(uri@, payload@).can_sign(),
            r matches Ok(s) ==> s@.is_signature_over(self@, uri@, payload@),
    {
        let mut s = self.clone();
        s.load(uri, payload);
        match s.sign() {
            Ok(()) => Ok(s),
            Err(e) => Err(e),
        }
    }

    /// The `SignedInfo` block of a signed context.
    pub fn signed_info_xml_events(&self, xmlns: bool) -> (r: Vec<XmlEvent>)
        requires
            self@.is_loaded(),
            self@.digest_value is Some,
        ensures
            events_view(r@) == self@.signed_info(xmlns),
    {
        let uri = match &self.payload_uri {
            Some(u) => u.clone(),
            None => String::new(),
        };
        let digest_value = match &self.digest_value {
            Some(d) => d.clone(),
            None => String::new(),
        };
        signed_info_events(
            &self.canonicalization_method,
            &self.signature_method,
            &self.digest_method,
            &uri,
            &digest_value,
            xmlns,
        )
    }

    /// The `Signature` block to embed after the signed element.
    pub fn signature_xml_events(&self) -> (r: Vec<XmlEvent>)
        requires
            self@.is_signed(),
        ensures
            events_view(r@) == self@.signature_block(),
    {
        let mut events: Vec<XmlEvent> = Vec::new();
        push_event(&mut events, start_event_with("Signature", "xmlns", XMLDSIG_NAMESPACE));
        let info = self.signed_info_xml_events(false);
        push_events(&mut events, info);
        let signature_value = match &self.signature_value {
            Some(s) => s.clone(),
            None => String::new(),
        };
        push_text_element(&mut events, "SignatureValue", signature_value.as_str());
        push_event(&mut events, start_event("KeyInfo"));
        push_event(&mut events, start_event("X509Data"));
        push_text_element(&mut events, "X509Certificate", self.certificate.as_str());
        push_event(&mut events, end_event("X509Data"));
        push_event(&mut events, end_event("KeyInfo"));
        push_event(&mut events, end_event("Signature"));
        proof {
            assert(events_view(events@) =~= self@.signature_block());
        }
        events
    }
}

/// A signed context's `SignedInfo` block holds exactly one `DigestValue`
/// element, whose text is the digest of the canonicalized payload, and names
/// the configured canonicalization, signature and digest algorithms by their
/// identifiers in the `Algorithm` attributes.
#[verifier::spinoff_prover]
pub proof fn signed_info_states_digest_and_algorithms(st: SignatureState, xmlns: bool)
    requires
        st.is_signed(),
        st.digest_value == Some(st.payload_digest()),
    ensures
        ({
            let e = st.signed_info(xmlns);
            &&& e.len() == 13
            &&& e[8] == open_view("DigestValue"@)
            &&& e[9] == EventView::Text(st.payload_digest())
            &&& forall|i: int| 0 <= i < e.len() && e[i] == open_view("DigestValue"@) ==> i == 8
            &&& e[1] == EventView::Empty(
                "CanonicalizationMethod"@,
                seq![("Algorithm"@, st.canonicalization_method.identifier())],
            )
            &&& e[2] == EventView::Empty(
                "SignatureMethod"@,
                seq![("Algorithm"@, st.signature_method.identifier())],
            )
            &&& e[5] == EventView::Empty(
                "Transform"@,
                seq![("Algorithm"@, st.canonicalization_method.identifier())],
            )
            &&& e[7] == EventView::Empty(
                "DigestMethod"@,
                seq![("Algorithm"@, st.digest_method.identifier())],
            )
        }),
{
    let e = st.signed_info(xmlns);
    reveal_strlit("SignedInfo");
    reveal_strlit("Reference");
    reveal_strlit("Transforms");
    reveal_strlit("DigestValue");
    assert(e.len() == 13);
    let dv = open_view("DigestValue"@);
    assert forall|i: int| 0 <= i < e.len() && e[i] == dv implies i == 8 by {
        if i == 0 {
            assert(e[0]->Start_0.len() == 10);
        } else if i == 3 {
            assert(e[3]->Start_0.len() == 9);
        } else if i == 4 {
            assert(e[4]->Start_0.len() == 10);
        } else if i == 1 || i == 2 || i == 5 || i == 6 || i == 7 || i == 9 || i == 10 || i == 11
            || i == 12 {
            assert(!(e[i] is Start));
        }
    }
}

/// Signing is deterministic: two loaded contexts with the same algorithms
/// (the same key or echo text), reference and payload get the same digest
/// value and the same signature value.
#[verifier::spinoff_prover]
pub proof fn signing_is_deterministic(a: SignatureState, b: SignatureState)
    requires
        a.canonicalization_method == b.canonicalization_method,
        a.signature_method == b.signature_method,
        a.digest_method == b.digest_method,
        a.payload_uri == b.payload_uri,
        a.payload == b.payload,
    ensures
        a.payload_digest() == b.payload_digest(),
        a.can_sign() == b.can_sign(),
        a.signature_method.signature_of(a.signed_info_text()) == b.signature_method.signature_of(
            b.signed_info_text(),
        ),
{
}

/// The `Signature` block is a well-formed document: every element it opens
/// closes, innermost first.
#[verifier::spinoff_prover]
pub proof fn signature_block_is_well_formed(st: SignatureState)
    ensures
        is_well_formed(st.signature_block()),
{
    let e = st.signature_block();
    assert(e.len() == 25);
    assert(e.subrange(0, 0) =~= Seq::<EventView>::empty());
    assert(open_elements(e.subrange(0, 0)) == Some(Seq::<Seq<char>>::empty()));
    assert(e[0] is Start && e[0]->Start_0 == "Signature"@);
    assert(e.subrange(0, 1).last() == e[0]);
    assert(e.subrange(0, 1).drop_last() =~= e.subrange(0, 0));
    assert(open_elements(e.subrange(0, 1)) matches Some(x) && x =~= seq!["Signature"@]);
    assert(e.subrange(0, 2).drop_last() =~= e.subrange(0, 1));
    assert(open_elements(e.subrange(0, 2)) matches Some(x) && x =~= seq!["Signature"@, "SignedInfo"@]);
    assert(e.subrange(0, 3).drop_last() =~= e.subrange(0, 2));
    assert(open_elements(e.subrange(0, 3)) matches Some(x) && x =~= seq!["Signature"@, "SignedInfo"@]);
    assert(e.subrange(0, 4).drop_last() =~= e.subrange(0, 3));
    assert(open_elements(e.subrange(0, 4)) matches Some(x) && x =~= seq!["Signature"@, "SignedInfo"@]);
    assert(e.subrange(0, 5).drop_last() =~= e.subrange(0, 4));
    assert(open_elements(e.subrange(0, 5)) matches Some(x) && x =~= seq!["Signature"@, "SignedInfo"@, "Reference"@]);
    assert(e.subrange(0, 6).drop_last() =~= e.subrange(0, 5));
    assert(open_elements(e.subrange(0, 6)) matches Some(x) && x =~= seq!["Signature"@, "SignedInfo"@, "Reference"@, "Transforms"@]);
    assert(e.subrange(0, 7).drop_last() =~= e.subrange(0, 6));
    assert(open_elements(e.subrange(0, 7)) matches Some(x) && x =~= seq!["Signature"@, "SignedInfo"@, "Reference"@, "Transforms"@]);
    assert(e.subrange(0, 8).drop_last() =~= e.subrange(0, 7));
    assert(open_elements(e.subrange(0, 8)) matches Some(x) && x =~= seq!["Signature"@, "SignedInfo"@, "Reference"@]);
    assert(e.subrange(0, 9).drop_last() =~= e.subrange(0, 8));
    assert(open_elements(e.subrange(0, 9)) matches Some(x) && x =~= seq!["Signature"@, "SignedInfo"@, "Reference"@]);
    assert(e.subrange(0, 10).drop_last() =~= e.subrange(0, 9));
    assert(open_elements(e.subrange(0, 10)) matches Some(x) && x =~= seq!["Signature"@, "SignedInfo"@, "Reference"@, "DigestValue"@]);
    assert(e.subrange(0, 11).drop_last() =~= e.subrange(0, 10));
    assert(open_elements(e.subrange(0, 11)) matches Some(x) && x =~= seq!["Signature"@, "SignedInfo"@, "Reference"@, "DigestValue"@]);
    assert(e.subrange(0, 12).drop_last() =~= e.subrange(0, 11));
    assert(open_elements(e.subrange(0, 12)) matches Some(x) && x =~= seq!["Signature"@, "SignedInfo"@, "Reference"@]);
    assert(e.subrange(0, 13).drop_last() =~= e.subrange(0, 12));
    assert(open_elements(e.subrange(0, 13)) matches Some(x) && x =~= seq!["Signature"@, "SignedInfo"@]);
    assert(e.subrange(0, 14).drop_last() =~= e.subrange(0, 13));
    assert(open_elements(e.subrange(0, 14)) matches Some(x) && x =~= seq!["Signature"@]);
    assert(e.subrange(0, 15).drop_last() =~= e.subrange(0, 14));
    assert(open_elements(e.subrange(0, 15)) matches Some(x) && x =~= seq!["Signature"@, "SignatureValue"@]);
    assert(e.subrange(0, 16).drop_last() =~= e.subrange(0, 15));
    assert(open_elements(e.subrange(0, 16)) matches Some(x) && x =~= seq!["Signature"@, "SignatureValue"@]);
    assert(e.subrange(0, 17).drop_last() =~= e.subrange(0, 16));
    assert(open_elements(e.subrange(0, 17)) matches Some(x) && x =~= seq!["Signature"@]);
    assert(e.subrange(0, 18).drop_last() =~= e.subrange(0, 17));
    assert(open_elements(e.subrange(0, 18)) matches Some(x) && x =~= seq!["Signature"@, "KeyInfo"@]);
    assert(e.subrange(0, 19).drop_last() =~= e.subrange(0, 18));
    assert(open_elements(e.subrange(0, 19)) matches Some(x) && x =~= seq!["Signature"@, "KeyInfo"@, "X509Data"@]);
    assert(e.subrange(0, 20).drop_last() =~= e.subrange(0, 19));
    assert(open_elements(e.subrange(0, 20)) matches Some(x) && x =~= seq!["Signature"@, "KeyInfo"@, "X509Data"@, "X509Certificate"@]);
    assert(e.subrange(0, 21).drop_last() =~= e.subrange(0, 20));
    assert(open_elements(e.subrange(0, 21)) matches Some(x) && x =~= seq!["Signature"@, "KeyInfo"@, "X509Data"@, "X509Certificate"@]);
    assert(e.subrange(0, 22).drop_last() =~= e.subrange(0, 21));
    assert(open_elements(e.subrange(0, 22)) matches Some(x) && x =~= seq!["Signature"@, "KeyInfo"@, "X509Data"@]);
    assert(e.subrange(0, 23).drop_last() =~= e.subrange(0, 22));
    assert(open_elements(e.subrange(0, 23)) matches Some(x) && x =~= seq!["Signature"@, "KeyInfo"@]);
    assert(e.subrange(0, 24).drop_last() =~= e.subrange(0, 23));
    assert(open_elements(e.subrange(0, 24)) matches Some(x) && x =~= seq!["Signature"@]);
    assert(e.subrange(0, 25).drop_last() =~= e.subrange(0, 24));
    assert(open_elements(e.subrange(0, 25)) matches Some(x) && x =~= Seq::<Seq<char>>::empty());
    assert(e.subrange(0, 25) =~= e);
    assert(open_elements(e) == Some(Seq::<Seq<char>>::empty()));
}

} // verus!
