//! Authorization trees: who was asked to authorize which calls.
//!
//! The host records one payload for each signer: the signer, or none where
//! the source account of the transaction signs implicitly; a nonce, for
//! payloads protected against replay; and the tree of invocations that the
//! signer authorizes.

use vstd::prelude::*;
use vstd::utf8::{decode_utf8, is_ascii_chars, valid_utf8};

use crate::strkey::{account_strkey_of, contract_strkey_of};
use crate::render::{
    address_text, item_texts, names_account, names_contract, render_address, render_scvals,
    val_text, vals_view,
};
use crate::scval::{address_debug_of, AddressView, ScAddress, ScVal, ValView};
use crate::text::{
    decimal, i64_text, join2, joined, lemma_shortened_ascii, shortened, usize_text, utf8_text,
};
use crate::trace::INDENT;

verus! {

// ---------------------------------------------------------------------------
// Types
// ---------------------------------------------------------------------------

/// The recorded payloads of one top-level invocation.
#[derive(Debug, PartialEq, Eq)]
pub struct AuthTree {
    /// One entry for each signer.
    pub payloads: Vec<RecordedAuthPayload>,
}

/// What one signer is asked to authorize.
#[derive(Debug, PartialEq, Eq)]
pub struct RecordedAuthPayload {
    /// The signer; none where the transaction's source account signs.
    pub address: Option<ScAddress>,
    /// The nonce of a payload protected against replay.
    pub nonce: Option<i64>,
    /// The invocations to authorize.
    pub invocation: AuthorizedInvocation,
}

/// An invocation and those made on its behalf.
#[derive(Debug, PartialEq, Eq)]
pub struct AuthorizedInvocation {
    pub function: AuthorizedFunction,
    pub sub_invocations: Vec<AuthorizedInvocation>,
}

/// What is invoked.
#[derive(Debug, PartialEq, Eq)]
pub enum AuthorizedFunction {
    /// A function of a contract.
    ContractFn { contract_address: ScAddress, function_name: Vec<u8>, args: Vec<ScVal> },
    /// The creation of a contract.
    CreateContractHostFn,
    /// The creation of a contract with constructor arguments.
    CreateContractV2HostFn,
}

/// The content of an invoked function.
#[verifier::ext_equal]
pub enum FunctionView {
    ContractFn { contract: AddressView, name: Seq<u8>, args: Seq<ValView> },
    CreateContract,
    CreateContractV2,
}

/// The content of an invocation.
#[verifier::ext_equal]
pub struct InvocationView {
    pub function: FunctionView,
    pub subs: Seq<InvocationView>,
}

/// The content of a payload.
#[verifier::ext_equal]
pub struct PayloadView {
    pub address: Option<AddressView>,
    pub nonce: Option<i64>,
    pub invocation: InvocationView,
}

impl View for AuthorizedFunction {
    type V = FunctionView;

    open spec fn view(&self) -> FunctionView {
        match *self {
            AuthorizedFunction::ContractFn { contract_address, function_name, args } =>
                FunctionView::ContractFn {
                contract: contract_address@,
                name: function_name@,
                args: vals_view(args@),
            },
            AuthorizedFunction::CreateContractHostFn => FunctionView::CreateContract,
            AuthorizedFunction::CreateContractV2HostFn => FunctionView::CreateContractV2,
        }
    }
}

impl AuthorizedInvocation {
    /// The invocation's content.
    pub open spec fn model(self) -> InvocationView
        decreases self,
    {
        InvocationView {
            function: self.function@,
            subs: Seq::new(
                self.sub_invocations@.len(),
                |i: int|
                    if 0 <= i < self.sub_invocations@.len() {
                        self.sub_invocations@[i].model()
                    } else {
                        arbitrary()
                    },
            ),
        }
    }
}

impl View for AuthorizedInvocation {
    type V = InvocationView;

    open spec fn view(&self) -> InvocationView {
        self.model()
    }
}

impl View for RecordedAuthPayload {
    type V = PayloadView;

    open spec fn view(&self) -> PayloadView {
        PayloadView {
            address: match self.address {
                Some(a) => Some(a@),
                None => None,
            },
            nonce: self.nonce,
            invocation: self.invocation@,
        }
    }
}

impl View for AuthTree {
    type V = Seq<PayloadView>;

    open spec fn view(&self) -> Seq<PayloadView> {
        self.payloads@.map_values(|p: RecordedAuthPayload| p@)
    }
}

// ---------------------------------------------------------------------------
// Counting
// ---------------------------------------------------------------------------

/// How many invocations a tree holds.
pub open spec fn invocation_size(inv: InvocationView) -> nat
    decreases inv,
{
    1 + invocations_size(inv.subs)
}

/// How many invocations some trees hold.
pub open spec fn invocations_size(invs: Seq<InvocationView>) -> nat
    decreases invs,
{
    if invs.len() == 0 {
        0
    } else {
        invocations_size(invs.drop_last()) + invocation_size(invs[invs.len() - 1])
    }
}

/// How many invocations some payloads hold.
pub open spec fn payloads_size(payloads: Seq<PayloadView>) -> nat {
    invocations_size(payloads.map_values(|p: PayloadView| p.invocation))
}

proof fn lemma_size_take(invs: Seq<InvocationView>, n: int)
    requires
        0 <= n <= invs.len(),
    ensures
        invocations_size(invs.take(n)) <= invocations_size(invs),
        n < invs.len() ==> invocations_size(invs.take(n + 1)) == invocations_size(invs.take(n))
            + invocation_size(invs[n]),
    decreases invs.len() - n,
{
    if n < invs.len() {
        lemma_size_take(invs, n + 1);
        assert(invs.take(n + 1).drop_last() =~= invs.take(n));
    } else {
        assert(invs.take(n) =~= invs);
    }
}

fn count_invocations(inv: &AuthorizedInvocation) -> (r: usize)
    requires
        invocation_size(inv@) <= usize::MAX,
    ensures
        r == invocation_size(inv@),
    decreases inv,
{
    let mut n: usize = 1;
    let mut i: usize = 0;
    let ghost subs = inv@.subs;
    assert(subs.take(0) =~= Seq::<InvocationView>::empty());
    while i < inv.sub_invocations.len()
        invariant
            i <= inv.sub_invocations@.len(),
            subs == inv@.subs,
            1 + invocations_size(subs) <= usize::MAX,
            n == 1 + invocations_size(subs.take(i as int)),
        decreases inv.sub_invocations@.len() - i,
    {
        proof {
            lemma_size_take(subs, i as int);
            lemma_size_take(subs, i + 1);
        }
        assert(decreases_to!(inv => inv.sub_invocations));
        assert(decreases_to!(inv.sub_invocations => inv.sub_invocations@));
        assert(decreases_to!(inv.sub_invocations@ => inv.sub_invocations@[i as int]));
        let inside: usize = count_invocations(&inv.sub_invocations[i]);
        n = n + inside;
        i = i + 1;
    }
    assert(subs.take(i as int) =~= subs);
    n
}

impl AuthTree {
    /// Wrap recorded payloads.
    pub fn from_payloads(payloads: Vec<RecordedAuthPayload>) -> (r: AuthTree)
        ensures
            r.payloads == payloads,
    {
        AuthTree { payloads }
    }

    /// How many payloads were recorded.
    pub fn payload_count(&self) -> (r: usize)
        ensures
            r == self@.len(),
    {
        self.payloads.len()
    }

    /// How many invocations the payloads hold, those inside others included.
    pub fn invocation_count(&self) -> (r: usize)
        requires
            payloads_size(self@) <= usize::MAX,
        ensures
            r == payloads_size(self@),
    {
        let mut n: usize = 0;
        let mut i: usize = 0;
        let ghost invs = self@.map_values(|p: PayloadView| p.invocation);
        assert(invs.take(0) =~= Seq::<InvocationView>::empty());
        while i < self.payloads.len()
            invariant
                i <= self.payloads@.len(),
                invs == self@.map_values(|p: PayloadView| p.invocation),
                invocations_size(invs) <= usize::MAX,
                n == invocations_size(invs.take(i as int)),
            decreases self.payloads@.len() - i,
        {
            proof {
                lemma_size_take(invs, i as int);
                lemma_size_take(invs, i + 1);
            }
            let inside: usize = count_invocations(&self.payloads[i].invocation);
            n = n + inside;
            i = i + 1;
        }
        assert(invs.take(i as int) =~= invs);
        n
    }

    /// Whether nothing was recorded.
    pub fn is_empty(&self) -> (r: bool)
        ensures
            r == (self@.len() == 0),
    {
        self.payloads.len() == 0
    }
}

// ---------------------------------------------------------------------------
// Text
// ---------------------------------------------------------------------------

/// The line of an invoked function.
pub open spec fn function_line(f: FunctionView, pad: Seq<char>) -> Seq<char> {
    match f {
        FunctionView::ContractFn { contract, name, args } => pad + "["@ + address_text(contract)
            + "] "@ + (if valid_utf8(name) {
            decode_utf8(name)
        } else {
            "<non-utf8>"@
        }) + "("@ + joined(item_texts(args), ", "@) + ")\n"@,
        FunctionView::CreateContract => pad + "<create_contract>\n"@,
        FunctionView::CreateContractV2 => pad + "<create_contract_v2>\n"@,
    }
}

/// An invocation and, indented by one more level, those inside it.
pub open spec fn invocation_text(inv: InvocationView, pad: Seq<char>) -> Seq<char>
    decreases inv,
{
    function_line(inv.function, pad) + invocations_text(inv.subs, pad + INDENT@)
}

/// Some invocations one after another.
pub open spec fn invocations_text(invs: Seq<InvocationView>, pad: Seq<char>) -> Seq<char>
    decreases invs,
{
    if invs.len() == 0 {
        Seq::empty()
    } else {
        invocations_text(invs.drop_last(), pad) + invocation_text(invs[invs.len() - 1], pad)
    }
}

/// A payload: its number, signer and nonce, then its invocations.
pub open spec fn payload_text(idx: int, p: PayloadView) -> Seq<char> {
    INDENT@ + "payload #"@ + decimal(idx) + "  signer="@ + (match p.address {
        Some(a) => address_text(a),
        None => "<source account>"@,
    }) + (match p.nonce {
        Some(n) => "  nonce="@ + decimal(n as int),
        None => ""@,
    }) + "\n"@ + invocation_text(p.invocation, INDENT@ + INDENT@)
}

/// The first `n` payloads, numbered from zero.
pub open spec fn payloads_text(payloads: Seq<PayloadView>, n: nat) -> Seq<char>
    decreases n,
{
    if n == 0 {
        Seq::empty()
    } else {
        payloads_text(payloads, (n - 1) as nat) + payload_text(n - 1, payloads[n - 1])
    }
}

/// The text of an authorization tree.
pub open spec fn auth_text(payloads: Seq<PayloadView>) -> Seq<char> {
    if payloads.len() == 0 {
        "[AUTH] (empty — has invoke_contract run yet, and did it demand any auth?)\n"@
    } else {
        "[AUTH]\n"@ + payloads_text(payloads, payloads.len())
    }
}

fn render_function(f: &AuthorizedFunction, pad: &str) -> (r: String)
    ensures
        r@ == function_line(f@, pad@),
{
    match f {
        AuthorizedFunction::ContractFn { contract_address, function_name, args } => {
            let mut s = join2(pad, "[");
            s.append(render_address(contract_address).as_str());
            s.append("] ");
            match utf8_text(function_name.as_slice()) {
                Some(name) => s.append(name.as_str()),
                None => s.append("<non-utf8>"),
            }
            s.append("(");
            s.append(render_scvals(args).as_str());
            s.append(")\n");
            s
        },
        AuthorizedFunction::CreateContractHostFn => join2(pad, "<create_contract>\n"),
        AuthorizedFunction::CreateContractV2HostFn => join2(pad, "<create_contract_v2>\n"),
    }
}

fn render_invocation(inv: &AuthorizedInvocation, pad: &str) -> (r: String)
    ensures
        r@ == invocation_text(inv@, pad@),
    decreases inv,
{
    let mut out = render_function(&inv.function, pad);
    let ghost head = out@;
    let deeper = join2(pad, INDENT);
    let mut i: usize = 0;
    let ghost subs = inv@.subs;
    assert(subs.take(0) =~= Seq::<InvocationView>::empty());
    assert(out@ =~= head + invocations_text(subs.take(0), deeper@));
    while i < inv.sub_invocations.len()
        invariant
            i <= inv.sub_invocations@.len(),
            subs == inv@.subs,
            out@ == head + invocations_text(subs.take(i as int), deeper@),
        decreases inv.sub_invocations@.len() - i,
    {
        assert(decreases_to!(inv => inv.sub_invocations));
        assert(decreases_to!(inv.sub_invocations => inv.sub_invocations@));
        assert(decreases_to!(inv.sub_invocations@ => inv.sub_invocations@[i as int]));
        let ghost before = invocations_text(subs.take(i as int), deeper@);
        let inside = render_invocation(&inv.sub_invocations[i], deeper.as_str());
        out.append(inside.as_str());
        assert(subs.take(i + 1).drop_last() =~= subs.take(i as int));
        assert(out@ =~= head + (before + inside@));
        i = i + 1;
    }
    assert(subs.take(i as int) =~= subs);
    out
}

fn render_payload(idx: usize, payload: &RecordedAuthPayload) -> (r: String)
    ensures
        r@ == payload_text(idx as int, payload@),
{
    let mut s = join2(INDENT, "payload #");
    s.append(usize_text(idx).as_str());
    s.append("  signer=");
    match &payload.address {
        Some(addr) => s.append(render_address(addr).as_str()),
        None => s.append("<source account>"),
    }
    match payload.nonce {
        Some(n) => s.append(join2("  nonce=", i64_text(n).as_str()).as_str()),
        None => s.append(""),
    }
    s.append("\n");
    s.append(render_invocation(&payload.invocation, join2(INDENT, INDENT).as_str()).as_str());
    s
}

impl AuthTree {
    /// The tree as text: a line for each payload, then its invocations.
    pub fn to_text(&self) -> (r: String)
        ensures
            r@ == auth_text(self@),
    {
        if self.payloads.len() == 0 {
            return "[AUTH] (empty — has invoke_contract run yet, and did it demand any auth?)\n".to_owned();
        }
        let mut out = "[AUTH]\n".to_owned();
        let mut i: usize = 0;
        assert(out@ =~= "[AUTH]\n"@ + payloads_text(self@, 0));
        while i < self.payloads.len()
            invariant
                i <= self.payloads@.len(),
                out@ == "[AUTH]\n"@ + payloads_text(self@, i as nat),
            decreases self.payloads@.len() - i,
        {
            let ghost before = payloads_text(self@, i as nat);
            let text = render_payload(i, &self.payloads[i]);
            out.append(text.as_str());
            assert(out@ =~= "[AUTH]\n"@ + (before + text@));
            i = i + 1;
        }
        out
    }
}

/// The line of a payload shows its signer: of an account or a contract the
/// first and the last four characters of its own strkey, and the words for
/// the source account exactly where there is no address.
pub proof fn law_signers_are_shown(idx: int, p: PayloadView)
    ensures
        p.address matches Some(AddressView::Account(k)) ==> (names_account(account_strkey_of(k), k)
            ==> signer_line(
            payload_text(idx, p),
            idx,
            account_strkey_of(k).take(4) + "\u{2026}"@ + account_strkey_of(k).skip(52),
            p,
        )),
        p.address matches Some(AddressView::Contract(k)) ==> (names_contract(contract_strkey_of(k), k)
            ==> signer_line(
            payload_text(idx, p),
            idx,
            contract_strkey_of(k).take(4) + "\u{2026}"@ + contract_strkey_of(k).skip(52),
            p,
        )),
        p.address matches Some(AddressView::Other(x)) ==> signer_line(
            payload_text(idx, p),
            idx,
            address_debug_of(x),
            p,
        ),
        p.address is None ==> signer_line(payload_text(idx, p), idx, "<source account>"@, p),
{
    match p.address {
        Some(AddressView::Account(k)) => {
            if is_ascii_chars(account_strkey_of(k)) {
                lemma_shortened_ascii(account_strkey_of(k), "\u{2026}"@);
            }
        },
        Some(AddressView::Contract(k)) => {
            if is_ascii_chars(contract_strkey_of(k)) {
                lemma_shortened_ascii(contract_strkey_of(k), "\u{2026}"@);
            }
        },
        _ => {},
    }
}

/// Whether a text is the line of a payload with this signer, and then the
/// payload's invocations.
pub open spec fn signer_line(text: Seq<char>, idx: int, signer: Seq<char>, p: PayloadView) -> bool {
    text == INDENT@ + "payload #"@ + decimal(idx) + "  signer="@ + signer + (match p.nonce {
        Some(n) => "  nonce="@ + decimal(n as int),
        None => ""@,
    }) + "\n"@ + invocation_text(p.invocation, INDENT@ + INDENT@)
}

/// Two payloads whose signers have different texts are told apart.
pub proof fn law_signers_are_told_apart(idx: int, a: PayloadView, b: PayloadView)
    requires
        a.nonce == b.nonce,
        a.invocation == b.invocation,
        payload_text(idx, a) == payload_text(idx, b),
    ensures
        a.address is Some && b.address is Some ==> address_text(a.address->0) == address_text(b.address->0),
        a.address is Some && b.address is None ==> address_text(a.address->0) == "<source account>"@,
        a.address matches Some(AddressView::Account(j)) ==> (b.address matches Some(
            AddressView::Account(k),
        ) ==> shortened(account_strkey_of(j), "\u{2026}"@) == shortened(
            account_strkey_of(k),
            "\u{2026}"@,
        )),
        a.address matches Some(AddressView::Contract(j)) ==> (b.address matches Some(
            AddressView::Contract(k),
        ) ==> shortened(contract_strkey_of(j), "\u{2026}"@) == shortened(
            contract_strkey_of(k),
            "\u{2026}"@,
        )),
        a.address matches Some(AddressView::Account(k)) ==> (names_account(
            account_strkey_of(k),
            k,
        ) ==> b.address is Some),
        a.address matches Some(AddressView::Contract(k)) ==> (names_contract(
            contract_strkey_of(k),
            k,
        ) ==> b.address is Some),
{
    let head = INDENT@ + "payload #"@ + decimal(idx) + "  signer="@;
    let nonce = match a.nonce {
        Some(n) => "  nonce="@ + decimal(n as int),
        None => ""@,
    };
    let tail = nonce + "\n"@ + invocation_text(a.invocation, INDENT@ + INDENT@);
    let x = match a.address {
        Some(s) => address_text(s),
        None => "<source account>"@,
    };
    let y = match b.address {
        Some(s) => address_text(s),
        None => "<source account>"@,
    };
    assert(payload_text(idx, a) =~= head + x + tail);
    assert(payload_text(idx, b) =~= head + y + tail);
    lemma_between_equal(head, x, y, tail);
    reveal_strlit("<source account>");
    assert("<source account>"@[0] == '<');
    match a.address {
        Some(AddressView::Account(k)) => {
            if is_ascii_chars(account_strkey_of(k)) {
                lemma_shortened_ascii(account_strkey_of(k), "\u{2026}"@);
                if account_strkey_of(k).len() == 56 {
                    assert(x[0] == account_strkey_of(k)[0]);
                }
            }
        },
        Some(AddressView::Contract(k)) => {
            if is_ascii_chars(contract_strkey_of(k)) {
                lemma_shortened_ascii(contract_strkey_of(k), "\u{2026}"@);
                if contract_strkey_of(k).len() == 56 {
                    assert(x[0] == contract_strkey_of(k)[0]);
                }
            }
        },
        _ => {},
    }
}

/// The line of a call names the contract, the function and every argument in
/// order; the calls that it needs follow two columns further in.
pub proof fn law_invocations_are_shown(
    contract: AddressView,
    name: Seq<u8>,
    args: Seq<ValView>,
    subs: Seq<InvocationView>,
    pad: Seq<char>,
)
    requires
        valid_utf8(name),
    ensures
        invocation_text(
            InvocationView { function: FunctionView::ContractFn { contract, name, args }, subs },
            pad,
        ) == pad + "["@ + address_text(contract) + "] "@ + decode_utf8(name) + "("@ + joined(
            Seq::new(args.len(), |i: int| val_text(args[i])),
            ", "@,
        ) + ")\n"@ + invocations_text(subs, pad + "  "@),
{
    assert(item_texts(args) =~= Seq::new(args.len(), |i: int| val_text(args[i])));
}

/// What a signer authorizes is shown one call after the other, and each
/// payload after the one before it.
pub proof fn law_invocations_are_shown_in_order(a: Seq<InvocationView>, b: Seq<InvocationView>, pad: Seq<char>)
    ensures
        invocations_text(a + b, pad) == invocations_text(a, pad) + invocations_text(b, pad),
        invocations_size(a + b) == invocations_size(a) + invocations_size(b),
    decreases b.len(),
{
    if b.len() == 0 {
        assert(a + b =~= a);
        assert(invocations_text(a, pad) + Seq::empty() =~= invocations_text(a, pad));
    } else {
        law_invocations_are_shown_in_order(a, b.drop_last(), pad);
        assert((a + b).drop_last() =~= a + b.drop_last());
        assert((a + b)[(a + b).len() - 1] == b[b.len() - 1]);
        assert(invocations_text(a, pad) + (invocations_text(b.drop_last(), pad) + invocation_text(
            b[b.len() - 1],
            pad,
        )) =~= invocations_text(a, pad) + invocations_text(b.drop_last(), pad) + invocation_text(
            b[b.len() - 1],
            pad,
        ));
    }
}

/// Each payload is shown under its own number, after those before it.
pub proof fn law_payloads_are_shown_in_order(payloads: Seq<PayloadView>, p: PayloadView)
    ensures
        auth_text(payloads.push(p)) == (if payloads.len() == 0 {
            "[AUTH]\n"@
        } else {
            auth_text(payloads)
        }) + payload_text(payloads.len() as int, p),
{
    let all = payloads.push(p);
    lemma_first_payloads(payloads, p, payloads.len());
    assert(auth_text(all) =~= "[AUTH]\n"@ + (payloads_text(all, payloads.len()) + payload_text(
        payloads.len() as int,
        p,
    )));
    if payloads.len() == 0 {
        assert(payloads_text(all, 0) =~= Seq::empty());
    }
}

proof fn lemma_first_payloads(payloads: Seq<PayloadView>, p: PayloadView, n: nat)
    requires
        n <= payloads.len(),
    ensures
        payloads_text(payloads.push(p), n) == payloads_text(payloads, n),
    decreases n,
{
    if n > 0 {
        lemma_first_payloads(payloads, p, (n - 1) as nat);
        assert(payloads.push(p)[n - 1] == payloads[n - 1]);
    }
}

proof fn lemma_between_equal(head: Seq<char>, x: Seq<char>, y: Seq<char>, tail: Seq<char>)
    requires
        head + x + tail == head + y + tail,
    ensures
        x == y,
{
    let a = head + x + tail;
    let b = head + y + tail;
    assert(a.len() == b.len());
    assert(x =~= a.subrange(head.len() as int, (head.len() + x.len()) as int));
    assert(y =~= b.subrange(head.len() as int, (head.len() + y.len()) as int));
}

/// Every payload brings at least one invocation: the one that the signer was
/// asked for.
pub proof fn law_payloads_bring_invocations(payloads: Seq<PayloadView>)
    ensures
        payloads_size(payloads) >= payloads.len(),
{
    lemma_sizes_at_least_len(payloads.map_values(|p: PayloadView| p.invocation));
}

proof fn lemma_sizes_at_least_len(invs: Seq<InvocationView>)
    ensures
        invocations_size(invs) >= invs.len(),
    decreases invs.len(),
{
    if invs.len() > 0 {
        lemma_sizes_at_least_len(invs.drop_last());
        assert(invocation_size(invs[invs.len() - 1]) >= 1);
    }
}

/// Every call that a payload asks for is counted, the one at its root and
/// those below it.
pub proof fn law_invocations_are_counted(payloads: Seq<PayloadView>, p: PayloadView)
    ensures
        payloads_size(payloads.push(p)) == payloads_size(payloads) + 1 + invocations_size(p.invocation.subs),
        payloads_size(Seq::empty()) == 0,
{
    let all = payloads.push(p).map_values(|p: PayloadView| p.invocation);
    assert(all.drop_last() =~= payloads.map_values(|p: PayloadView| p.invocation));
    assert(all[all.len() - 1] == p.invocation);
    assert(invocations_size(all) == invocations_size(all.drop_last()) + invocation_size(p.invocation));
    assert(invocation_size(p.invocation) == 1 + invocations_size(p.invocation.subs));
    assert(Seq::<PayloadView>::empty().map_values(|p: PayloadView| p.invocation) =~= Seq::empty());
}

/// Creating a contract is shown as such, and so is a name that is no text.
pub proof fn law_other_invocations_are_shown(
    contract: AddressView,
    name: Seq<u8>,
    args: Seq<ValView>,
    subs: Seq<InvocationView>,
    pad: Seq<char>,
)
    ensures
        invocation_text(InvocationView { function: FunctionView::CreateContract, subs }, pad) == pad
            + "<create_contract>\n"@ + invocations_text(subs, pad + "  "@),
        invocation_text(InvocationView { function: FunctionView::CreateContractV2, subs }, pad) == pad
            + "<create_contract_v2>\n"@ + invocations_text(subs, pad + "  "@),
        !valid_utf8(name) ==> invocation_text(
            InvocationView { function: FunctionView::ContractFn { contract, name, args }, subs },
            pad,
        ) == pad + "["@ + address_text(contract) + "] "@ + "<non-utf8>"@ + "("@ + joined(
            Seq::new(args.len(), |i: int| val_text(args[i])),
            ", "@,
        ) + ")\n"@ + invocations_text(subs, pad + "  "@),
{
    assert(item_texts(args) =~= Seq::new(args.len(), |i: int| val_text(args[i])));
}

/// A payload stands for the signer, the nonce and the calls that it holds.
pub proof fn law_payloads_stand_for_what_they_hold(t: AuthTree, i: int)
    requires
        0 <= i < t.payloads@.len(),
    ensures
        t@.len() == t.payloads@.len(),
        t@[i].nonce == t.payloads@[i].nonce,
        t.payloads@[i].address matches Some(a) ==> t@[i].address == Some(a@),
        t.payloads@[i].address is None ==> t@[i].address is None,
        t@[i].invocation.function == t.payloads@[i].invocation.function@,
        t@[i].invocation.subs.len() == t.payloads@[i].invocation.sub_invocations@.len(),
        forall|j: int|
            0 <= j < t@[i].invocation.subs.len() ==> #[trigger] t@[i].invocation.subs[j]
                == t.payloads@[i].invocation.sub_invocations@[j]@,
{
}

} // verus!
