//! The encoding is canonical: no two values have the same bytes.
//!
//! Each lemma here says of one kind of value that its bytes can be told from
//! whatever follows them: if two encoded values, each followed by further
//! bytes, make up the same byte string, then the values are the same and so is
//! what follows. From these the two hashed messages are shown to determine
//! their contents.

use crate::block::BlockView;
use crate::encoding::{
    block_fits, block_preimage, count_bytes, id_preimage, text_bytes, text_fits, texts_bytes,
    texts_fit, time_bytes, transaction_bytes, transaction_fits, transactions_bytes,
    transactions_fit, transfer_bytes, transfer_fits, u64_bytes, ENCODING_VERSION, TAG_MULTISIG,
    TAG_STANDARD, TAG_TIMELOCKED,
};
use crate::time::Timestamp;
use crate::transaction::{TransactionTypeView, TransactionView};
use vstd::bytes::{
    lemma_auto_spec_u32_to_from_le_bytes, lemma_auto_spec_u64_to_from_le_bytes,
    spec_u32_to_le_bytes,
};
use vstd::prelude::*;
use vstd::utf8::{encode_utf8, encode_utf8_decode_utf8};

verus! {

/// Joining byte strings does not depend on how they are grouped.
pub proof fn lemma_join_regroups(a: Seq<u8>, b: Seq<u8>, c: Seq<u8>)
    ensures
        (a + b) + c == a + (b + c),
{
    assert((a + b) + c =~= a + (b + c));
}

/// Joining nothing to a byte string leaves it as it is.
pub proof fn lemma_join_nothing(a: Seq<u8>)
    ensures
        a + Seq::<u8>::empty() == a,
{
    assert(a + Seq::<u8>::empty() =~= a);
}

/// Two byte strings of one length, each followed by further bytes, that make up
/// the same byte string are the same, and so is what follows them.
pub proof fn lemma_same_length_prefix(a: Seq<u8>, r: Seq<u8>, b: Seq<u8>, s: Seq<u8>)
    requires
        a.len() == b.len(),
        a + r == b + s,
    ensures
        a == b,
        r == s,
{
    assert(a =~= (a + r).subrange(0, a.len() as int));
    assert(b =~= (b + s).subrange(0, b.len() as int));
    assert(r =~= (a + r).subrange(a.len() as int, (a + r).len() as int));
    assert(s =~= (b + s).subrange(b.len() as int, (b + s).len() as int));
}

/// An integer can be told from what follows it.
pub proof fn lemma_u64_prefix(x: u64, r: Seq<u8>, y: u64, s: Seq<u8>)
    requires
        u64_bytes(x) + r == u64_bytes(y) + s,
    ensures
        x == y,
        r == s,
{
    lemma_auto_spec_u64_to_from_le_bytes();
    lemma_same_length_prefix(u64_bytes(x), r, u64_bytes(y), s);
}

/// A count can be told from what follows it.
pub proof fn lemma_count_prefix(n: nat, r: Seq<u8>, m: nat, s: Seq<u8>)
    requires
        n <= u64::MAX,
        m <= u64::MAX,
        count_bytes(n) + r == count_bytes(m) + s,
    ensures
        n == m,
        r == s,
{
    lemma_u64_prefix(n as u64, r, m as u64, s);
}

/// A text can be told from what follows it.
pub proof fn lemma_text_prefix(x: Seq<char>, r: Seq<u8>, y: Seq<char>, s: Seq<u8>)
    requires
        text_fits(x),
        text_fits(y),
        text_bytes(x) + r == text_bytes(y) + s,
    ensures
        x == y,
        r == s,
{
    let ux = encode_utf8(x);
    let uy = encode_utf8(y);
    lemma_join_regroups(count_bytes(ux.len()), ux, r);
    lemma_join_regroups(count_bytes(uy.len()), uy, s);
    lemma_count_prefix(ux.len(), ux + r, uy.len(), uy + s);
    lemma_same_length_prefix(ux, r, uy, s);
    encode_utf8_decode_utf8(x);
    encode_utf8_decode_utf8(y);
}

/// A timestamp can be told from what follows it.
pub proof fn lemma_time_prefix(x: Timestamp, r: Seq<u8>, y: Timestamp, s: Seq<u8>)
    requires
        time_bytes(x) + r == time_bytes(y) + s,
    ensures
        x == y,
        r == s,
{
    let sx = (x.secs + crate::encoding::SECONDS_OFFSET) as u64;
    let sy = (y.secs + crate::encoding::SECONDS_OFFSET) as u64;
    let nx = spec_u32_to_le_bytes(x.nanos);
    let ny = spec_u32_to_le_bytes(y.nanos);
    lemma_join_regroups(u64_bytes(sx), nx, r);
    lemma_join_regroups(u64_bytes(sy), ny, s);
    lemma_u64_prefix(sx, nx + r, sy, ny + s);
    lemma_auto_spec_u32_to_from_le_bytes();
    lemma_same_length_prefix(nx, r, ny, s);
}

/// A single byte can be told from what follows it.
pub proof fn lemma_byte_prefix(x: u8, r: Seq<u8>, y: u8, s: Seq<u8>)
    requires
        seq![x] + r == seq![y] + s,
    ensures
        x == y,
        r == s,
{
    lemma_same_length_prefix(seq![x], r, seq![y], s);
    assert(seq![x][0] == seq![y][0]);
}

/// The bytes of a list of texts start with the bytes of its first text.
pub proof fn lemma_texts_front(texts: Seq<Seq<char>>)
    requires
        texts.len() > 0,
    ensures
        texts_bytes(texts) == text_bytes(texts[0]) + texts_bytes(texts.drop_first()),
    decreases texts.len(),
{
    if texts.len() == 1 {
        assert(texts.drop_last() =~= Seq::empty());
        assert(texts.drop_first() =~= Seq::empty());
        assert(texts_bytes(texts.drop_last()) + text_bytes(texts.last()) =~= text_bytes(texts[0])
            + texts_bytes(texts.drop_first()));
    } else {
        let front = texts.drop_last();
        let back = texts.drop_first();
        lemma_texts_front(front);
        assert(front.drop_first() =~= back.drop_last());
        assert(back.last() == texts.last());
        lemma_join_regroups(
            text_bytes(texts[0]),
            texts_bytes(back.drop_last()),
            text_bytes(texts.last()),
        );
    }
}

/// Two lists of texts of one length can be told from what follows them.
pub proof fn lemma_texts_prefix(
    xs: Seq<Seq<char>>,
    r: Seq<u8>,
    ys: Seq<Seq<char>>,
    s: Seq<u8>,
)
    requires
        xs.len() == ys.len(),
        texts_fit(xs),
        texts_fit(ys),
        texts_bytes(xs) + r == texts_bytes(ys) + s,
    ensures
        xs == ys,
        r == s,
    decreases xs.len(),
{
    if xs.len() == 0 {
        assert(xs =~= ys);
        assert(texts_bytes(xs) + r =~= r);
        assert(texts_bytes(ys) + s =~= s);
    } else {
        let xt = xs.drop_first();
        let yt = ys.drop_first();
        lemma_texts_front(xs);
        lemma_texts_front(ys);
        lemma_join_regroups(text_bytes(xs[0]), texts_bytes(xt), r);
        lemma_join_regroups(text_bytes(ys[0]), texts_bytes(yt), s);
        lemma_text_prefix(xs[0], texts_bytes(xt) + r, ys[0], texts_bytes(yt) + s);
        assert forall|i: int| 0 <= i < xt.len() implies text_fits(#[trigger] xt[i]) by {
            assert(xt[i] == xs[i + 1]);
        }
        assert forall|i: int| 0 <= i < yt.len() implies text_fits(#[trigger] yt[i]) by {
            assert(yt[i] == ys[i + 1]);
        }
        lemma_texts_prefix(xt, r, yt, s);
        assert forall|i: int| 0 <= i < xs.len() implies xs[i] == ys[i] by {
            if i > 0 {
                assert(xs[i] == xt[i - 1]);
                assert(ys[i] == yt[i - 1]);
            }
        }
        assert(xs =~= ys);
    }
}

/// The tag byte that the encoding of a transfer starts with.
pub open spec fn tag_of(t: TransactionTypeView) -> u8 {
    match t {
        TransactionTypeView::Standard { .. } => TAG_STANDARD,
        TransactionTypeView::MultiSig { .. } => TAG_MULTISIG,
        TransactionTypeView::TimeLocked { .. } => TAG_TIMELOCKED,
    }
}

/// What the encoding of a transfer writes after the amount.
pub open spec fn extra_bytes(t: TransactionTypeView) -> Seq<u8> {
    match t {
        TransactionTypeView::Standard { .. } => Seq::empty(),
        TransactionTypeView::MultiSig { required_signatures, signatures, .. } => count_bytes(
            required_signatures as nat,
        ) + (count_bytes(signatures.len()) + texts_bytes(signatures)),
        TransactionTypeView::TimeLocked { unlock_time, .. } => time_bytes(unlock_time),
    }
}

/// The encoding of a transfer, taken apart from the front.
pub proof fn lemma_transfer_parts(t: TransactionTypeView, r: Seq<u8>)
    ensures
        transfer_bytes(t) + r == seq![tag_of(t)] + (text_bytes(t.sender()) + (text_bytes(
            t.recipient(),
        ) + (u64_bytes(t.amount()) + (extra_bytes(t) + r)))),
{
    let v = seq![tag_of(t)];
    let p1 = text_bytes(t.sender());
    let p2 = text_bytes(t.recipient());
    let p3 = u64_bytes(t.amount());
    let p4 = extra_bytes(t);
    let head = ((v + p1) + p2) + p3;
    match t {
        TransactionTypeView::Standard { .. } => {
            lemma_join_nothing(head);
        },
        TransactionTypeView::MultiSig { required_signatures, signatures, .. } => {
            let q1 = count_bytes(required_signatures as nat);
            let q2 = count_bytes(signatures.len());
            let q3 = texts_bytes(signatures);
            lemma_join_regroups(head + q1, q2, q3);
            lemma_join_regroups(head, q1, q2 + q3);
        },
        TransactionTypeView::TimeLocked { .. } => {},
    }
    assert(transfer_bytes(t) == head + p4);
    lemma_join_regroups(head, p4, r);
    lemma_join_regroups((v + p1) + p2, p3, p4 + r);
    lemma_join_regroups(v + p1, p2, p3 + (p4 + r));
    lemma_join_regroups(v, p1, p2 + (p3 + (p4 + r)));
}

/// A transfer can be told from what follows it.
pub proof fn lemma_transfer_prefix(
    x: TransactionTypeView,
    r: Seq<u8>,
    y: TransactionTypeView,
    s: Seq<u8>,
)
    requires
        transfer_fits(x),
        transfer_fits(y),
        transfer_bytes(x) + r == transfer_bytes(y) + s,
    ensures
        x == y,
        r == s,
{
    lemma_transfer_parts(x, r);
    lemma_transfer_parts(y, s);
    let x3 = extra_bytes(x) + r;
    let y3 = extra_bytes(y) + s;
    let x2 = u64_bytes(x.amount()) + x3;
    let y2 = u64_bytes(y.amount()) + y3;
    let x1 = text_bytes(x.recipient()) + x2;
    let y1 = text_bytes(y.recipient()) + y2;
    let x0 = text_bytes(x.sender()) + x1;
    let y0 = text_bytes(y.sender()) + y1;
    lemma_byte_prefix(tag_of(x), x0, tag_of(y), y0);
    lemma_text_prefix(x.sender(), x1, y.sender(), y1);
    lemma_text_prefix(x.recipient(), x2, y.recipient(), y2);
    lemma_u64_prefix(x.amount(), x3, y.amount(), y3);
    match x {
        TransactionTypeView::Standard { .. } => {
            assert(y is Standard);
            assert(extra_bytes(x) + r =~= r);
            assert(extra_bytes(y) + s =~= s);
        },
        TransactionTypeView::MultiSig { required_signatures: xq, signatures: xs, .. } => {
            assert(y is MultiSig);
            let yq = y->required_signatures;
            let ys = y->signatures;
            let xb = count_bytes(xs.len()) + texts_bytes(xs);
            let yb = count_bytes(ys.len()) + texts_bytes(ys);
            lemma_join_regroups(count_bytes(xq as nat), xb, r);
            lemma_join_regroups(count_bytes(yq as nat), yb, s);
            lemma_count_prefix(xq as nat, xb + r, yq as nat, yb + s);
            lemma_join_regroups(count_bytes(xs.len()), texts_bytes(xs), r);
            lemma_join_regroups(count_bytes(ys.len()), texts_bytes(ys), s);
            lemma_count_prefix(xs.len(), texts_bytes(xs) + r, ys.len(), texts_bytes(ys) + s);
            lemma_texts_prefix(xs, r, ys, s);
        },
        TransactionTypeView::TimeLocked { unlock_time, .. } => {
            assert(y is TimeLocked);
            lemma_time_prefix(unlock_time, r, y->unlock_time, s);
        },
    }
}

/// The encoding of a transaction, taken apart from the front.
pub proof fn lemma_transaction_parts(tx: TransactionView, r: Seq<u8>)
    ensures
        transaction_bytes(tx) + r == text_bytes(tx.id) + (transfer_bytes(tx.tx_type) + (time_bytes(
            tx.timestamp,
        ) + (u64_bytes(tx.nonce) + r))),
{
    let p0 = text_bytes(tx.id);
    let p1 = transfer_bytes(tx.tx_type);
    let p2 = time_bytes(tx.timestamp);
    let p3 = u64_bytes(tx.nonce);
    lemma_join_regroups((p0 + p1) + p2, p3, r);
    lemma_join_regroups(p0 + p1, p2, p3 + r);
    lemma_join_regroups(p0, p1, p2 + (p3 + r));
}

/// A transaction can be told from what follows it.
pub proof fn lemma_transaction_prefix(
    x: TransactionView,
    r: Seq<u8>,
    y: TransactionView,
    s: Seq<u8>,
)
    requires
        transaction_fits(x),
        transaction_fits(y),
        transaction_bytes(x) + r == transaction_bytes(y) + s,
    ensures
        x == y,
        r == s,
{
    let x3 = u64_bytes(x.nonce) + r;
    let y3 = u64_bytes(y.nonce) + s;
    let x2 = time_bytes(x.timestamp) + x3;
    let y2 = time_bytes(y.timestamp) + y3;
    let x1 = transfer_bytes(x.tx_type) + x2;
    let y1 = transfer_bytes(y.tx_type) + y2;
    lemma_transaction_parts(x, r);
    lemma_transaction_parts(y, s);
    lemma_text_prefix(x.id, x1, y.id, y1);
    lemma_transfer_prefix(x.tx_type, x2, y.tx_type, y2);
    lemma_time_prefix(x.timestamp, x3, y.timestamp, y3);
    lemma_u64_prefix(x.nonce, r, y.nonce, s);
}

/// The bytes of a list of transactions start with the bytes of its first
/// transaction.
pub proof fn lemma_transactions_front(txs: Seq<TransactionView>)
    requires
        txs.len() > 0,
    ensures
        transactions_bytes(txs) == transaction_bytes(txs[0]) + transactions_bytes(
            txs.drop_first(),
        ),
    decreases txs.len(),
{
    if txs.len() == 1 {
        assert(txs.drop_last() =~= Seq::empty());
        assert(txs.drop_first() =~= Seq::empty());
        assert(transactions_bytes(txs.drop_last()) + transaction_bytes(txs.last())
            =~= transaction_bytes(txs[0]) + transactions_bytes(txs.drop_first()));
    } else {
        let front = txs.drop_last();
        let back = txs.drop_first();
        lemma_transactions_front(front);
        assert(front.drop_first() =~= back.drop_last());
        assert(back.last() == txs.last());
        lemma_join_regroups(
            transaction_bytes(txs[0]),
            transactions_bytes(back.drop_last()),
            transaction_bytes(txs.last()),
        );
    }
}

/// Two lists of transactions of one length can be told from what follows them.
pub proof fn lemma_transactions_prefix(
    xs: Seq<TransactionView>,
    r: Seq<u8>,
    ys: Seq<TransactionView>,
    s: Seq<u8>,
)
    requires
        xs.len() == ys.len(),
        transactions_fit(xs),
        transactions_fit(ys),
        transactions_bytes(xs) + r == transactions_bytes(ys) + s,
    ensures
        xs == ys,
        r == s,
    decreases xs.len(),
{
    if xs.len() == 0 {
        assert(xs =~= ys);
        assert(transactions_bytes(xs) + r =~= r);
        assert(transactions_bytes(ys) + s =~= s);
    } else {
        let xt = xs.drop_first();
        let yt = ys.drop_first();
        lemma_transactions_front(xs);
        lemma_transactions_front(ys);
        lemma_join_regroups(transaction_bytes(xs[0]), transactions_bytes(xt), r);
        lemma_join_regroups(transaction_bytes(ys[0]), transactions_bytes(yt), s);
        lemma_transaction_prefix(
            xs[0],
            transactions_bytes(xt) + r,
            ys[0],
            transactions_bytes(yt) + s,
        );
        assert forall|i: int| 0 <= i < xt.len() implies transaction_fits(#[trigger] xt[i]) by {
            assert(xt[i] == xs[i + 1]);
        }
        assert forall|i: int| 0 <= i < yt.len() implies transaction_fits(#[trigger] yt[i]) by {
            assert(yt[i] == ys[i + 1]);
        }
        lemma_transactions_prefix(xt, r, yt, s);
        assert forall|i: int| 0 <= i < xs.len() implies xs[i] == ys[i] by {
            if i > 0 {
                assert(xs[i] == xt[i - 1]);
                assert(ys[i] == yt[i - 1]);
            }
        }
        assert(xs =~= ys);
    }
}

/// The message that identifies a transaction, taken apart from the front.
pub proof fn lemma_id_parts(t: TransactionTypeView, timestamp: Timestamp, nonce: u64)
    ensures
        id_preimage(t, timestamp, nonce) == seq![ENCODING_VERSION] + (transfer_bytes(t) + (
        time_bytes(timestamp) + u64_bytes(nonce))),
{
    let v = seq![ENCODING_VERSION];
    let p1 = transfer_bytes(t);
    let p2 = time_bytes(timestamp);
    let p3 = u64_bytes(nonce);
    lemma_join_regroups(v + p1, p2, p3);
    lemma_join_regroups(v, p1, p2 + p3);
}

/// The message that identifies a transaction determines the transfer, the
/// timestamp and the sequence number it was built from.
pub proof fn lemma_id_preimage_injective(
    x: TransactionTypeView,
    xt: Timestamp,
    xn: u64,
    y: TransactionTypeView,
    yt: Timestamp,
    yn: u64,
)
    requires
        transfer_fits(x),
        transfer_fits(y),
        id_preimage(x, xt, xn) == id_preimage(y, yt, yn),
    ensures
        x == y,
        xt == yt,
        xn == yn,
{
    let x2 = time_bytes(xt) + u64_bytes(xn);
    let y2 = time_bytes(yt) + u64_bytes(yn);
    let x1 = transfer_bytes(x) + x2;
    let y1 = transfer_bytes(y) + y2;
    lemma_id_parts(x, xt, xn);
    lemma_id_parts(y, yt, yn);
    lemma_byte_prefix(ENCODING_VERSION, x1, ENCODING_VERSION, y1);
    lemma_transfer_prefix(x, x2, y, y2);
    lemma_time_prefix(xt, u64_bytes(xn), yt, u64_bytes(yn));
    lemma_join_nothing(u64_bytes(xn));
    lemma_join_nothing(u64_bytes(yn));
    lemma_u64_prefix(xn, Seq::empty(), yn, Seq::empty());
}

/// The message that a block's hash is taken over, taken apart from the front.
pub proof fn lemma_block_parts(b: BlockView)
    ensures
        block_preimage(b) == seq![ENCODING_VERSION] + (u64_bytes(b.index) + (time_bytes(
            b.timestamp,
        ) + (count_bytes(b.transactions.len()) + (transactions_bytes(b.transactions) + (text_bytes(
            b.previous_hash,
        ) + u64_bytes(b.nonce)))))),
{
    let v = seq![ENCODING_VERSION];
    let p1 = u64_bytes(b.index);
    let p2 = time_bytes(b.timestamp);
    let p3 = count_bytes(b.transactions.len());
    let p4 = transactions_bytes(b.transactions);
    let p5 = text_bytes(b.previous_hash);
    let p6 = u64_bytes(b.nonce);
    lemma_join_regroups((((v + p1) + p2) + p3) + p4, p5, p6);
    lemma_join_regroups(((v + p1) + p2) + p3, p4, p5 + p6);
    lemma_join_regroups((v + p1) + p2, p3, p4 + (p5 + p6));
    lemma_join_regroups(v + p1, p2, p3 + (p4 + (p5 + p6)));
    lemma_join_regroups(v, p1, p2 + (p3 + (p4 + (p5 + p6))));
}

/// The message that a block's hash is taken over determines the block's index,
/// timestamp, transactions, previous hash and nonce.
pub proof fn lemma_block_preimage_injective(x: BlockView, y: BlockView)
    requires
        block_fits(x),
        block_fits(y),
        block_preimage(x) == block_preimage(y),
    ensures
        x.same_content(y),
        x.nonce == y.nonce,
{
    let x5 = text_bytes(x.previous_hash) + u64_bytes(x.nonce);
    let y5 = text_bytes(y.previous_hash) + u64_bytes(y.nonce);
    let x4 = transactions_bytes(x.transactions) + x5;
    let y4 = transactions_bytes(y.transactions) + y5;
    let x3 = count_bytes(x.transactions.len()) + x4;
    let y3 = count_bytes(y.transactions.len()) + y4;
    let x2 = time_bytes(x.timestamp) + x3;
    let y2 = time_bytes(y.timestamp) + y3;
    let x1 = u64_bytes(x.index) + x2;
    let y1 = u64_bytes(y.index) + y2;
    lemma_block_parts(x);
    lemma_block_parts(y);
    lemma_byte_prefix(ENCODING_VERSION, x1, ENCODING_VERSION, y1);
    lemma_u64_prefix(x.index, x2, y.index, y2);
    lemma_time_prefix(x.timestamp, x3, y.timestamp, y3);
    lemma_count_prefix(x.transactions.len(), x4, y.transactions.len(), y4);
    lemma_transactions_prefix(x.transactions, x5, y.transactions, y5);
    lemma_text_prefix(x.previous_hash, u64_bytes(x.nonce), y.previous_hash, u64_bytes(y.nonce));
    lemma_join_nothing(u64_bytes(x.nonce));
    lemma_join_nothing(u64_bytes(y.nonce));
    lemma_u64_prefix(x.nonce, Seq::empty(), y.nonce, Seq::empty());
}

} // verus!
