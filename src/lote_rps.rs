//! A batch of records, signed as a whole once its records are signed.
use vstd::prelude::*;
use crate::algorithms::SigningError;
use crate::yaml::{YamlField, yaml_get, text_field, list_field, text_value, bad_field_message};
use crate::money::{nat_text, append_nat};
use crate::rps::{Rps, RpsView, NFSE_NAMESPACE, LAYOUT_VERSION};
use crate::signature::{XmlSignature, SignatureState};
use crate::xml::{
    XmlEvent, EventView, events_view, text_element_view, open_view, attrs_view, push_event,
    push_events, push_text_element, start_event, end_event, xml_events_to_xml_string,
    document_text, event_text, lemma_document_text_append,
};

verus! {

/// The records as they stand in the batch, one after the other.
pub open spec fn rps_list_view(rs: Seq<RpsView>) -> Seq<EventView>
    decreases rs.len(),
{
    if rs.len() == 0 {
        Seq::empty()
    } else {
        rps_list_view(rs.drop_last()) + rs.last().rps_view(false)
    }
}

/// The value of a [`LoteRps`].
pub struct LoteView {
    pub rpses: Seq<RpsView>,
    pub cnpj: Seq<char>,
    pub inscricao_municipal: Seq<char>,
    pub signature: Option<SignatureState>,
}

impl LoteView {
    /// Every record, and the batch signature where there is one, is in order.
    pub open spec fn wf(&self) -> bool {
        &&& forall|i: int| 0 <= i < self.rpses.len() ==> #[trigger] self.rpses[i].wf()
        &&& self.signature matches Some(s) ==> s.is_signed()
    }

    /// Every record has been signed.
    pub open spec fn all_signed(&self) -> bool {
        forall|i: int| 0 <= i < self.rpses.len() ==> #[trigger] self.rpses[i].signature is Some
    }

    /// The opening of the `LoteRps` element, up to the opening of its list.
    pub open spec fn lote_header_view(&self) -> Seq<EventView> {
        seq![
            EventView::Start(
                "LoteRps"@,
                seq![("xmlns"@, NFSE_NAMESPACE@), ("Id"@, "lote"@), ("versao"@, LAYOUT_VERSION@)],
            ),
        ] + text_element_view("NumeroLote"@, "1"@) + text_element_view("Cnpj"@, self.cnpj)
            + text_element_view("InscricaoMunicipal"@, self.inscricao_municipal)
            + text_element_view("QuantidadeRps"@, nat_text(self.rpses.len())) + seq![
            open_view("ListaRps"@),
        ]
    }

    /// The `LoteRps` element, the part that the batch signature covers.
    pub open spec fn lote_rps_view(&self) -> Seq<EventView> {
        self.lote_header_view() + rps_list_view(self.rpses) + seq![
            EventView::End("ListaRps"@),
            EventView::End("LoteRps"@),
        ]
    }

    /// The signature block of the batch, empty while it is unsigned.
    pub open spec fn signature_view(&self) -> Seq<EventView> {
        match self.signature {
            Some(s) => s.signature_block(),
            None => Seq::empty(),
        }
    }

    /// The submission: the batch, then its signature block as a sibling.
    pub open spec fn enviar_view(&self) -> Seq<EventView> {
        seq![
            EventView::Start(
                "EnviarLoteRpsEnvio"@,
                seq![("xmlns"@, NFSE_NAMESPACE@), ("versao"@, LAYOUT_VERSION@)],
            ),
        ] + self.lote_rps_view() + self.signature_view() + seq![
            EventView::End("EnviarLoteRpsEnvio"@),
        ]
    }

    /// The text that the batch signature covers.
    pub open spec fn payload(&self) -> Seq<char> {
        document_text(self.lote_rps_view())
    }
}

/// The message for a record that could not be read.
pub open spec fn record_error_message(i: nat, e: Seq<char>) -> Seq<char> {
    "error in notas_fiscais."@ + nat_text(i) + ": "@ + e
}

/// The records that were read.
pub open spec fn ok_views(rs: Seq<Result<Rps, String>>) -> Seq<RpsView> {
    rs.map_values(|r: Result<Rps, String>| r->Ok_0@)
}

/// The first record from `i` on that `key` identifies.
pub open spec fn record_for_from(rs: Seq<RpsView>, key: Seq<char>, i: int) -> Option<int>
    decreases rs.len() - i,
{
    if i < 0 || i >= rs.len() {
        None
    } else if rs[i].identity() == key {
        Some(i)
    } else {
        record_for_from(rs, key, i + 1)
    }
}

/// A batch of records from one provider.
pub struct LoteRps {
    rpses: Vec<Rps>,
    cnpj: String,
    inscricao_municipal: String,
    signature: Option<XmlSignature>,
}

pub open spec fn rpses_view(rs: Seq<Rps>) -> Seq<RpsView> {
    rs.map_values(|r: Rps| r@)
}

impl View for LoteRps {
    type V = LoteView;

    closed spec fn view(&self) -> LoteView {
        LoteView {
            rpses: rpses_view(self.rpses@),
            cnpj: self.cnpj@,
            inscricao_municipal: self.inscricao_municipal@,
            signature: match self.signature {
                Some(s) => Some(s@),
                None => None,
            },
        }
    }
}

impl LoteRps {
    pub fn new(rpses: Vec<Rps>, cnpj: String, inscricao_municipal: String) -> (r: Self)
        ensures
            r@ == (LoteView {
                rpses: rpses_view(rpses@),
                cnpj: cnpj@,
                inscricao_municipal: inscricao_municipal@,
                signature: None,
            }),
    {
        LoteRps { rpses, cnpj, inscricao_municipal, signature: None }
    }

    /// The records, in order.
    pub fn get_rpses(&self) -> (r: &Vec<Rps>)
        ensures
            rpses_view(r@) == self@.rpses,
    {
        &self.rpses
    }

    /// The file name of the first record that `key` identifies, to match an
    /// issued invoice to the record it was issued for.
    #[verifier::spinoff_prover]
    pub fn file_name_for(&self, key: &String) -> (r: Option<String>)
        ensures
            record_for_from(self@.rpses, key@, 0) matches Some(i) ==> (r matches Some(n) && n@
                == self@.rpses[i].nome_arquivo),
            record_for_from(self@.rpses, key@, 0) is None ==> r is None,
    {
        let mut i: usize = 0;
        while i < self.rpses.len()
            invariant
                i <= self@.rpses.len(),
                record_for_from(self@.rpses, key@, 0) == record_for_from(self@.rpses, key@, i as int),
            decreases self.rpses.len() - i,
        {
            proof {
                assert(self@.rpses[i as int] == self.rpses@[i as int]@);
            }
            if self.rpses[i].uniquely_identify() == *key {
                return Some(self.rpses[i].file_name().clone());
            }
            i += 1;
        }
        None
    }

    /// Signs every record, in order, each with its own copy of `signature`.
    /// On success every record is signed over its own fragment and nothing
    /// else has changed; where a key refuses, the records keep their fields.
    #[verifier::spinoff_prover]
    pub fn sign_rpses(&mut self, signature: &XmlSignature) -> (r: Result<(), SigningError>)
        requires
            old(self)@.wf(),
        ensures
            (r is Ok) == forall|i: int|
                0 <= i < old(self)@.rpses.len() ==> #[trigger] signature@.loaded_with(
                    seq!['#'] + old(self)@.rpses[i].id,
                    document_text(old(self)@.rpses[i].inf_rps_view(true)),
                ).can_sign(),
            final(self)@.wf(),
            final(self)@.cnpj == old(self)@.cnpj,
            final(self)@.inscricao_municipal == old(self)@.inscricao_municipal,
            final(self)@.signature == old(self)@.signature,
            final(self)@.rpses.len() == old(self)@.rpses.len(),
            forall|i: int|
                0 <= i < old(self)@.rpses.len() ==> (#[trigger] final(self)@.rpses[i] == (RpsView {
                    signature: final(self)@.rpses[i].signature,
                    ..old(self)@.rpses[i]
                })),
            r is Ok ==> forall|i: int|
                0 <= i < old(self)@.rpses.len() ==> (#[trigger] final(self)@.rpses[i].signature matches Some(s)
                    && s.is_signature_over(
                    signature@,
                    seq!['#'] + old(self)@.rpses[i].id,
                    document_text(old(self)@.rpses[i].inf_rps_view(true)),
                )),
    {
        let ghost before = self@.rpses;
        let n = self.rpses.len();
        let mut done: Vec<Rps> = Vec::new();
        let mut result: Result<(), SigningError> = Ok(());
        while self.rpses.len() > 0
            invariant
                self.cnpj == old(self).cnpj,
                self.inscricao_municipal == old(self).inscricao_municipal,
                self.signature == old(self).signature,
                old(self)@.wf(),
                n == before.len(),
                done@.len() + self.rpses@.len() == n,
                rpses_view(self.rpses@) == before.subrange(done@.len() as int, n as int),
                forall|i: int| 0 <= i < done@.len() ==> (#[trigger] done@[i])@.wf(),
                forall|i: int|
                    0 <= i < done@.len() ==> (#[trigger] done@[i])@ == (RpsView {
                        signature: done@[i]@.signature,
                        ..before[i]
                    }),
                forall|i: int| 0 <= i < n ==> (#[trigger] before[i]).wf(),
                (result is Ok) == forall|j: int|
                    0 <= j < done@.len() ==> #[trigger] signature@.loaded_with(
                        seq!['#'] + before[j].id,
                        document_text(before[j].inf_rps_view(true)),
                    ).can_sign(),
                result is Ok ==> forall|i: int|
                    0 <= i < done@.len() ==> ((#[trigger] done@[i])@.signature matches Some(s)
                        && s.is_signature_over(
                        signature@,
                        seq!['#'] + before[i].id,
                        document_text(before[i].inf_rps_view(true)),
                    )),
            decreases self.rpses.len(),
        {
            let ghost k = done@.len() as int;
            let ghost rest = self.rpses@;
            let mut rps = self.rpses.remove(0);
            proof {
                assert(rps == rest[0]);
                assert(rpses_view(rest)[0] == rps@);
                assert(rps@ == before[k]);
                assert(self.rpses@ =~= rest.subrange(1, rest.len() as int));
                assert forall|j: int| 0 <= j < self.rpses@.len() implies rpses_view(self.rpses@)[j]
                    == before[k + 1 + j] by {
                    assert(rpses_view(rest)[j + 1] == before.subrange(k, n as int)[j + 1]);
                }
                assert(rpses_view(self.rpses@) =~= before.subrange(k + 1, n as int));
            }
            let signed = rps.sign(signature.clone());
            match signed {
                Ok(()) => {},
                Err(e) => {
                    result = Err(e);
                },
            }
            done.push(rps);
        }
        self.rpses = done;
        proof {
            assert(rpses_view(self.rpses@).len() == n);
            assert forall|i: int| 0 <= i < n implies #[trigger] self@.rpses[i] == done@[i]@ by {}
        }
        result
    }

    fn push_lote_header(&self, events: &mut Vec<XmlEvent>)
        ensures
            events_view(final(events)@) == events_view(old(events)@) + self@.lote_header_view(),
    {
        let ghost start = events_view(events@);
        let mut attrs: Vec<(String, String)> = Vec::new();
        attrs.push((String::from_str("xmlns"), String::from_str(NFSE_NAMESPACE)));
        attrs.push((String::from_str("Id"), String::from_str("lote")));
        attrs.push((String::from_str("versao"), String::from_str(LAYOUT_VERSION)));
        proof {
            assert(attrs_view(attrs@) =~= seq![
                ("xmlns"@, NFSE_NAMESPACE@),
                ("Id"@, "lote"@),
                ("versao"@, LAYOUT_VERSION@),
            ]);
        }
        push_event(events, XmlEvent::Start(String::from_str("LoteRps"), attrs));
        push_text_element(events, "NumeroLote", "1");
        push_text_element(events, "Cnpj", self.cnpj.as_str());
        push_text_element(events, "InscricaoMunicipal", self.inscricao_municipal.as_str());
        let mut quantidade = String::new();
        append_nat(&mut quantidade, self.rpses.len() as u128);
        proof {
            assert(quantidade@ =~= nat_text(self@.rpses.len()));
        }
        push_text_element(events, "QuantidadeRps", quantidade.as_str());
        push_event(events, start_event("ListaRps"));
        proof {
            assert(events_view(events@) =~= start + self@.lote_header_view());
        }
    }

    fn push_rps_list(&self, events: &mut Vec<XmlEvent>)
        requires
            self@.wf(),
        ensures
            events_view(final(events)@) == events_view(old(events)@) + rps_list_view(self@.rpses),
    {
        let ghost mid = events_view(events@);
        let mut i: usize = 0;
        proof {
            assert(mid + rps_list_view(self@.rpses.subrange(0, 0)) =~= mid);
        }
        while i < self.rpses.len()
            invariant
                i <= self@.rpses.len(),
                self@.wf(),
                events_view(events@) == mid + rps_list_view(self@.rpses.subrange(0, i as int)),
            decreases self.rpses.len() - i,
        {
            proof {
                assert(self@.rpses[i as int] == self.rpses@[i as int]@);
            }
            let more = self.rpses[i].rps_xml_events(false);
            push_events(events, more);
            proof {
                let pre = self@.rpses.subrange(0, i as int);
                let post = self@.rpses.subrange(0, i + 1);
                assert(post.drop_last() =~= pre);
                assert(events_view(events@) =~= mid + rps_list_view(post));
            }
            i += 1;
        }
        proof {
            assert(self@.rpses.subrange(0, self@.rpses.len() as int) =~= self@.rpses);
        }
    }

    fn push_lote_rps(&self, events: &mut Vec<XmlEvent>)
        requires
            self@.wf(),
        ensures
            events_view(final(events)@) == events_view(old(events)@) + self@.lote_rps_view(),
    {
        let ghost start = events_view(events@);
        self.push_lote_header(events);
        self.push_rps_list(events);
        push_event(events, end_event("ListaRps"));
        push_event(events, end_event("LoteRps"));
        proof {
            assert(events_view(events@) =~= start + self@.lote_rps_view());
        }
    }

    /// The `LoteRps` element, with each record and its signature.
    pub fn lote_rps_xml_events(&self) -> (r: Vec<XmlEvent>)
        requires
            self@.wf(),
        ensures
            events_view(r@) == self@.lote_rps_view(),
    {
        let mut events: Vec<XmlEvent> = Vec::new();
        self.push_lote_rps(&mut events);
        proof {
            assert(events_view(events@) =~= self@.lote_rps_view());
        }
        events
    }

    /// Signs the batch: a copy of `signature` is loaded with `#lote` and the
    /// serialized `LoteRps` element, which holds each record as it stands
    /// (with its signature where it has one), signed, and kept. Where the key
    /// refuses, the batch is left as it was.
    pub fn sign(&mut self, signature: XmlSignature) -> (r: Result<(), SigningError>)
        requires
            old(self)@.wf(),
        ensures
            (r is Ok) == signature@.loaded_with("#lote"@, old(self)@.payload()).can_sign(),
            r is Err ==> final(self)@ == old(self)@,
            r is Ok ==> final(self)@ == (LoteView {
                signature: final(self)@.signature,
                ..old(self)@
            }),
            r is Ok ==> (final(self)@.signature matches Some(s) && s.is_signature_over(
                signature@,
                "#lote"@,
                old(self)@.payload(),
            )),
            final(self)@.wf(),
    {
        let payload = xml_events_to_xml_string(self.lote_rps_xml_events().as_slice());
        match signature.sign_payload(String::from_str("#lote"), payload) {
            Ok(signed) => {
                self.signature = Some(signed);
                Ok(())
            },
            Err(e) => Err(e),
        }
    }

    /// The submission document: `EnviarLoteRpsEnvio` holding the batch and,
    /// once the batch is signed, its signature block after it.
    pub fn enviar_lote_rps_envio_events(&self) -> (r: Vec<XmlEvent>)
        requires
            self@.wf(),
        ensures
            events_view(r@) == self@.enviar_view(),
    {
        let mut attrs: Vec<(String, String)> = Vec::new();
        attrs.push((String::from_str("xmlns"), String::from_str(NFSE_NAMESPACE)));
        attrs.push((String::from_str("versao"), String::from_str(LAYOUT_VERSION)));
        proof {
            assert(attrs_view(attrs@) =~= seq![
                ("xmlns"@, NFSE_NAMESPACE@),
                ("versao"@, LAYOUT_VERSION@),
            ]);
        }
        let mut events: Vec<XmlEvent> = Vec::new();
        push_event(&mut events, XmlEvent::Start(String::from_str("EnviarLoteRpsEnvio"), attrs));
        self.push_lote_rps(&mut events);
        match &self.signature {
            Some(signature) => {
                let block = signature.signature_xml_events();
                push_events(&mut events, block);
            },
            None => {},
        }
        push_event(&mut events, end_event("EnviarLoteRpsEnvio"));
        proof {
            assert(events_view(events@) =~= self@.enviar_view());
        }
        events
    }
}

#[verifier::spinoff_prover]
pub proof fn lemma_rps_list_append(a: Seq<RpsView>, b: Seq<RpsView>)
    ensures
        rps_list_view(a + b) == rps_list_view(a) + rps_list_view(b),
    decreases b.len(),
{
    if b.len() == 0 {
        assert(a + b =~= a);
        assert(rps_list_view(a) + rps_list_view(b) =~= rps_list_view(a));
    } else {
        lemma_rps_list_append(a, b.drop_last());
        assert((a + b).drop_last() =~= a + b.drop_last());
        assert(rps_list_view(a) + rps_list_view(b) =~= rps_list_view(a) + rps_list_view(
            b.drop_last(),
        ) + b.last().rps_view(false));
    }
}

/// Sequences that differ only in a middle part are different.
#[verifier::spinoff_prover]
pub proof fn lemma_middle_differs(x: Seq<char>, y1: Seq<char>, y2: Seq<char>, z: Seq<char>)
    requires
        y1 != y2,
    ensures
        x + y1 + z != x + y2 + z,
{
    if y1.len() == y2.len() {
        if forall|i: int| 0 <= i < y1.len() ==> y1[i] == y2[i] {
            assert(y1 =~= y2);
        }
        let i = choose|i: int| 0 <= i < y1.len() && y1[i] != y2[i];
        assert((x + y1 + z)[x.len() + i] == y1[i]);
        assert((x + y2 + z)[x.len() + i] == y2[i]);
    } else {
        assert((x + y1 + z).len() != (x + y2 + z).len());
    }
}

/// The text of a batch's `LoteRps` element, cut around one record.
#[verifier::spinoff_prover]
#[verifier::rlimit(50)]
proof fn lemma_payload_around(l: LoteView, k: int)
    requires
        0 <= k < l.rpses.len(),
    ensures
        l.payload() == document_text(l.lote_header_view() + rps_list_view(l.rpses.subrange(0, k)))
            + document_text(l.rpses[k].rps_view(false)) + document_text(
            rps_list_view(l.rpses.subrange(k + 1, l.rpses.len() as int)) + seq![
                EventView::End("ListaRps"@),
                EventView::End("LoteRps"@),
            ],
        ),
{
    let pre = l.rpses.subrange(0, k);
    let post = l.rpses.subrange(k + 1, l.rpses.len() as int);
    let tail = seq![EventView::End("ListaRps"@), EventView::End("LoteRps"@)];
    assert(l.rpses =~= pre + seq![l.rpses[k]] + post);
    lemma_rps_list_append(pre + seq![l.rpses[k]], post);
    lemma_rps_list_append(pre, seq![l.rpses[k]]);
    assert(seq![l.rpses[k]].drop_last() =~= Seq::<RpsView>::empty());
    reveal_with_fuel(rps_list_view, 2);
    assert(rps_list_view(seq![l.rpses[k]]) =~= l.rpses[k].rps_view(false));
    let h = l.lote_header_view() + rps_list_view(pre);
    let m = l.rpses[k].rps_view(false);
    let t = rps_list_view(post) + tail;
    assert(l.lote_rps_view() =~= h + m + t);
    lemma_document_text_append(h + m, t);
    lemma_document_text_append(h, m);
}

/// The batch payload depends on every record: two batches of the same
/// provider that differ only in one record, whose fragment as it stands in the
/// batch differs by as little as one character, have different payloads, so
/// their digests and signatures are computed over different texts.
#[verifier::spinoff_prover]
pub proof fn batch_payload_depends_on_each_record(a: LoteView, b: LoteView, k: int)
    requires
        a.cnpj == b.cnpj,
        a.inscricao_municipal == b.inscricao_municipal,
        a.rpses.len() == b.rpses.len(),
        0 <= k < a.rpses.len(),
        forall|i: int| 0 <= i < a.rpses.len() && i != k ==> a.rpses[i] == b.rpses[i],
        document_text(a.rpses[k].rps_view(false)) != document_text(b.rpses[k].rps_view(false)),
    ensures
        a.payload() != b.payload(),
{
    lemma_payload_around(a, k);
    lemma_payload_around(b, k);
    assert(a.rpses.subrange(0, k) =~= b.rpses.subrange(0, k));
    assert(a.rpses.subrange(k + 1, a.rpses.len() as int) =~= b.rpses.subrange(
        k + 1,
        b.rpses.len() as int,
    ));
    assert(a.lote_header_view() == b.lote_header_view());
    lemma_middle_differs(
        document_text(a.lote_header_view() + rps_list_view(a.rpses.subrange(0, k))),
        document_text(a.rpses[k].rps_view(false)),
        document_text(b.rpses[k].rps_view(false)),
        document_text(
            rps_list_view(a.rpses.subrange(k + 1, a.rpses.len() as int)) + seq![
                EventView::End("ListaRps"@),
                EventView::End("LoteRps"@),
            ],
        ),
    );
}

/// A signed record's text is longer than the same record's unsigned text.
#[verifier::spinoff_prover]
proof fn lemma_signed_rps_longer(r: RpsView)
    requires
        r.signature is Some,
    ensures
        document_text((RpsView { signature: None, ..r }).rps_view(false)).len() < document_text(
            r.rps_view(false),
        ).len(),
{
    let u = RpsView { signature: None, ..r };
    assert(u.inf_rps_view(false) == r.inf_rps_view(false));
    let s0 = seq![
        EventView::Start("Rps"@, Seq::<(Seq<char>, Seq<char>)>::empty() + seq![("versao"@, LAYOUT_VERSION@)]),
    ];
    let i = r.inf_rps_view(false);
    let e = seq![EventView::End("Rps"@)];
    let sig = r.signature_view();
    assert(u.signature_view() =~= Seq::<EventView>::empty());
    assert(u.rps_view(false) =~= s0 + i + Seq::<EventView>::empty() + e);
    assert(r.rps_view(false) =~= s0 + i + sig + e);
    assert(s0 + i + Seq::<EventView>::empty() =~= s0 + i);
    lemma_document_text_append(s0 + i, e);
    lemma_document_text_append(s0 + i + sig, e);
    lemma_document_text_append(s0 + i, sig);
    let first = seq![sig[0]];
    assert(sig =~= first + sig.subrange(1, sig.len() as int));
    lemma_document_text_append(first, sig.subrange(1, sig.len() as int));
    assert(first.drop_last() =~= Seq::<EventView>::empty());
    reveal_with_fuel(document_text, 2);
    assert(document_text(first) =~= event_text(sig[0]));
    assert(sig[0] is Start);
}

#[verifier::spinoff_prover]
proof fn lemma_signed_list_longer(a: Seq<RpsView>, b: Seq<RpsView>)
    requires
        a.len() == b.len(),
        forall|i: int| 0 <= i < b.len() ==> (#[trigger] b[i]).signature is Some,
        forall|i: int| 0 <= i < b.len() ==> #[trigger] a[i] == (RpsView { signature: None, ..b[i] }),
    ensures
        document_text(rps_list_view(a)).len() + (if a.len() > 0 {
            1int
        } else {
            0int
        }) <= document_text(rps_list_view(b)).len(),
    decreases a.len(),
{
    if a.len() > 0 {
        lemma_signed_list_longer(a.drop_last(), b.drop_last());
        lemma_document_text_append(rps_list_view(a.drop_last()), a.last().rps_view(false));
        lemma_document_text_append(rps_list_view(b.drop_last()), b.last().rps_view(false));
        lemma_signed_rps_longer(b.last());
    }
}

/// Signing order matters: once its records are signed, a batch has a
/// different payload than the same batch before its records were signed, so
/// the batch digest is computed over a different text. It holds of batches of
/// at least one record.
#[verifier::spinoff_prover]
pub proof fn signing_records_changes_batch_payload(before: LoteView, after: LoteView)
    requires
        before.cnpj == after.cnpj,
        before.inscricao_municipal == after.inscricao_municipal,
        before.rpses.len() == after.rpses.len(),
        before.rpses.len() > 0,
        after.all_signed(),
        forall|i: int|
            0 <= i < after.rpses.len() ==> #[trigger] before.rpses[i] == (RpsView {
                signature: None,
                ..after.rpses[i]
            }),
    ensures
        before.payload() != after.payload(),
{
    lemma_signed_list_longer(before.rpses, after.rpses);
    let tail = seq![EventView::End("ListaRps"@), EventView::End("LoteRps"@)];
    assert(before.lote_header_view() == after.lote_header_view());
    assert(before.lote_rps_view() =~= before.lote_header_view() + rps_list_view(before.rpses)
        + tail);
    assert(after.lote_rps_view() =~= after.lote_header_view() + rps_list_view(after.rpses) + tail);
    lemma_document_text_append(before.lote_header_view() + rps_list_view(before.rpses), tail);
    lemma_document_text_append(after.lote_header_view() + rps_list_view(after.rpses), tail);
    lemma_document_text_append(before.lote_header_view(), rps_list_view(before.rpses));
    lemma_document_text_append(after.lote_header_view(), rps_list_view(after.rpses));
    let h = document_text(before.lote_header_view());
    let t = document_text(tail);
    assert(before.payload().len() == h.len() + document_text(rps_list_view(before.rpses)).len()
        + t.len());
    assert(after.payload().len() == h.len() + document_text(rps_list_view(after.rpses)).len()
        + t.len());
}

impl LoteRps {
    /// A batch from its YAML mapping: `cnpj`, `inscricao_municipal` and
    /// `codigo_municipio` (strings or numbers) for the provider, and the
    /// records under `notas_fiscais`, in order. An error in a record is
    /// reported with its position.
    pub fn from_yaml(yaml: &serde_yaml::Mapping) -> (r: Result<Self, String>)
        ensures
            r matches Ok(l) ==> {
                &&& l@.wf()
                &&& l@.signature is None
                &&& forall|i: int|
                    0 <= i < l@.rpses.len() ==> {
                        &&& (#[trigger] l@.rpses[i]).signature is None
                        &&& l@.rpses[i].cnpj_prestador == l@.cnpj
                        &&& l@.rpses[i].inscricao_municipal_prestador == l@.inscricao_municipal
                    }
            },
    {
        LoteRps::from_fields(
            yaml_get(yaml, "cnpj"),
            yaml_get(yaml, "inscricao_municipal"),
            yaml_get(yaml, "codigo_municipio"),
            yaml_get(yaml, "notas_fiscais"),
        )
    }

    /// A batch from the provider's configured fields and its list of records.
    /// The provider's fields are checked first, in order; then each record is
    /// read, and the first that cannot be is reported with its position.
    #[verifier::spinoff_prover]
    pub fn from_fields(
        cnpj: YamlField,
        inscricao_municipal: YamlField,
        codigo_municipio: YamlField,
        notas_fiscais: YamlField,
    ) -> (r: Result<Self, String>)
        ensures
            text_value(cnpj) is None ==> (r matches Err(e) && e@ == bad_field_message("cnpj"@)),
            text_value(cnpj) is Some && text_value(inscricao_municipal) is None ==> (r matches Err(
                e,
            ) && e@ == bad_field_message("inscricao_municipal"@)),
            text_value(cnpj) is Some && text_value(inscricao_municipal) is Some && text_value(
                codigo_municipio,
            ) is None ==> (r matches Err(e) && e@ == bad_field_message("codigo_municipio"@)),
            text_value(cnpj) is Some && text_value(inscricao_municipal) is Some && text_value(
                codigo_municipio,
            ) is Some && !(notas_fiscais is List) ==> (r matches Err(e) && e@ == bad_field_message(
                "notas_fiscais"@,
            )),
            r matches Ok(l) ==> {
                &&& notas_fiscais matches YamlField::List(items) && l@.rpses.len() == items@.len()
                &&& l@.cnpj == text_value(cnpj)->0
                &&& l@.inscricao_municipal == text_value(inscricao_municipal)->0
                &&& l@.wf()
                &&& l@.signature is None
                &&& forall|i: int|
                    0 <= i < l@.rpses.len() ==> {
                        &&& (#[trigger] l@.rpses[i]).signature is None
                        &&& l@.rpses[i].cnpj_prestador == l@.cnpj
                        &&& l@.rpses[i].inscricao_municipal_prestador == l@.inscricao_municipal
                        &&& l@.rpses[i].codigo_municipio == text_value(codigo_municipio)->0
                    }
            },
    {
        let ghost list = notas_fiscais;
        let cnpj_text = match text_field(cnpj, "cnpj") {
            Ok(v) => v,
            Err(e) => return Err(e),
        };
        let im_text = match text_field(inscricao_municipal, "inscricao_municipal") {
            Ok(v) => v,
            Err(e) => return Err(e),
        };
        let cm_text = match text_field(codigo_municipio, "codigo_municipio") {
            Ok(v) => v,
            Err(e) => return Err(e),
        };
        let mut items = match list_field(notas_fiscais, "notas_fiscais") {
            Ok(v) => v,
            Err(e) => return Err(e),
        };
        let mut results: Vec<Result<Rps, String>> = Vec::new();
        let n = items.len();
        while items.len() > 0
            invariant
                results@.len() + items@.len() == n,
                forall|j: int|
                    0 <= j < results@.len() ==> ((#[trigger] results@[j]) matches Ok(rps) ==> {
                        &&& rps@.wf()
                        &&& rps@.signature is None
                        &&& rps@.cnpj_prestador == cnpj_text@
                        &&& rps@.inscricao_municipal_prestador == im_text@
                        &&& rps@.codigo_municipio == cm_text@
                    }),
                list == notas_fiscais,
                list matches YamlField::List(all) && all@.len() == n,
                text_value(cnpj) == Some(cnpj_text@),
                text_value(inscricao_municipal) == Some(im_text@),
                text_value(codigo_municipio) == Some(cm_text@),
            decreases items.len(),
        {
            let item = items.remove(0);
            let one = Rps::from_yaml(item, cnpj_text.clone(), im_text.clone(), cm_text.clone());
            results.push(one);
        }
        let ghost rs = results@;
        let r = LoteRps::from_records(results, cnpj_text, im_text);
        proof {
            if r is Ok {
                let l = r->Ok_0;
                assert forall|i: int| 0 <= i < l@.rpses.len() implies {
                    &&& (#[trigger] l@.rpses[i]).wf()
                    &&& l@.rpses[i].signature is None
                    &&& l@.rpses[i].cnpj_prestador == l@.cnpj
                    &&& l@.rpses[i].inscricao_municipal_prestador == l@.inscricao_municipal
                    &&& l@.rpses[i].codigo_municipio == text_value(codigo_municipio)->0
                } by {
                    assert(rs[i] is Ok);
                    assert(l@.rpses[i] == rs[i]->Ok_0@);
                }
            }
        }
        r
    }

    /// A batch from its records as they were read: the first record that
    /// could not be read is reported with its position; otherwise the batch
    /// holds the records in order.
    #[verifier::spinoff_prover]
    pub fn from_records(records: Vec<Result<Rps, String>>, cnpj: String, inscricao_municipal: String) -> (r: Result<Self, String>)
        ensures
            r matches Err(x) ==> exists|i: int|
                0 <= i < records@.len() && (forall|j: int| 0 <= j < i ==> (#[trigger] records@[j]) is Ok)
                    && ((#[trigger] records@[i]) matches Err(e) && x@ == record_error_message(i as nat, e@)),
            r is Ok ==> forall|i: int| 0 <= i < records@.len() ==> (#[trigger] records@[i]) is Ok,
            (forall|i: int| 0 <= i < records@.len() ==> (#[trigger] records@[i]) is Ok) ==> (r matches Ok(l) && l@ == (LoteView {
                rpses: ok_views(records@),
                cnpj: cnpj@,
                inscricao_municipal: inscricao_municipal@,
                signature: None,
            })),
    {
        let ghost all = records@;
        let mut pending = records;
        let mut rpses: Vec<Rps> = Vec::new();
        let n = pending.len();
        while pending.len() > 0
            invariant
                all.len() == n,
                all == records@,
                rpses@.len() + pending@.len() == n,
                pending@ == all.subrange(rpses@.len() as int, n as int),
                forall|j: int| 0 <= j < rpses@.len() ==> (#[trigger] all[j]) is Ok,
                rpses_view(rpses@) == ok_views(all.subrange(0, rpses@.len() as int)),
            decreases pending.len(),
        {
            let ghost k = rpses@.len() as int;
            let ghost rest = pending@;
            let one = pending.remove(0);
            proof {
                assert(one == all[k]);
                assert(pending@ =~= all.subrange(k + 1, n as int));
            }
            match one {
                Ok(rps) => {
                    let ghost v = rps@;
                    proof {
                        assert(all[k]->Ok_0@ == v);
                    }
                    let ghost before = rpses_view(rpses@);
                    rpses.push(rps);
                    proof {
                        assert(rpses_view(rpses@) =~= before.push(v));
                        assert(ok_views(all.subrange(0, k + 1)) =~= ok_views(all.subrange(0, k)).push(
                            v,
                        ));
                        assert(ok_views(all.subrange(0, k + 1))[k] == v);
                        assert(rpses_view(rpses@) =~= ok_views(all.subrange(0, k + 1)));
                    }
                },
                Err(e) => {
                    let mut msg = String::from_str("error in notas_fiscais.");
                    append_nat(&mut msg, rpses.len() as u128);
                    msg.append(": ");
                    msg.append(e.as_str());
                    proof {
                        assert(msg@ =~= record_error_message(k as nat, e@));
                        assert(all[k] matches Err(x) && x == e);
                        assert(forall|j: int| 0 <= j < k ==> (#[trigger] all[j]) is Ok);
                    }
                    return Err(msg);
                },
            }
        }
        proof {
            assert(all.subrange(0, n as int) =~= all);
        }
        Ok(LoteRps::new(rpses, cnpj, inscricao_municipal))
    }
}

} // verus!
