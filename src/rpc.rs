use vstd::prelude::*;

verus! {

/// Address the JSON-RPC front-end binds to: loopback, port chosen by the OS.
pub const RPC_BIND_ADDRESS: &'static str = "127.0.0.1:0";

/// An IPv4 socket address, as the OS reports a bound listener.
#[derive(Clone, Copy, Debug, PartialEq, Eq)]
pub struct LocalAddr {
    pub ip: [u8; 4],
    pub port: u16,
}

/// The character of decimal digit `d`.
pub open spec fn digit_char(d: nat) -> char {
    if d == 0 { '0' }
    else if d == 1 { '1' }
    else if d == 2 { '2' }
    else if d == 3 { '3' }
    else if d == 4 { '4' }
    else if d == 5 { '5' }
    else if d == 6 { '6' }
    else if d == 7 { '7' }
    else if d == 8 { '8' }
    else { '9' }
}

/// `n` written in decimal, without leading zeros.
pub open spec fn decimal(n: nat) -> Seq<char>
    decreases n,
{
    if n < 10 {
        seq![digit_char(n)]
    } else {
        decimal(n / 10) + seq![digit_char(n % 10)]
    }
}

/// `addr` written as `a.b.c.d:port`.
pub open spec fn socket_text(addr: LocalAddr) -> Seq<char> {
    decimal(addr.ip[0] as nat) + seq!['.'] + (decimal(addr.ip[1] as nat) + seq!['.'] + (
    decimal(addr.ip[2] as nat) + seq!['.'] + (decimal(addr.ip[3] as nat) + seq![':'] + decimal(
        addr.port as nat,
    ))))
}

/// The URL of the JSON-RPC endpoint listening at `addr`.
pub open spec fn rpc_url_of(addr: LocalAddr) -> Seq<char> {
    seq!['h', 't', 't', 'p', ':', '/', '/'] + socket_text(addr)
}

pub open spec fn is_digit(c: char) -> bool {
    '0' <= c && c <= '9'
}

proof fn lemma_decimal_digits(n: nat)
    ensures
        decimal(n).len() >= 1,
        forall|i: int| 0 <= i < decimal(n).len() ==> is_digit(#[trigger] decimal(n)[i]),
    decreases n,
{
    if n >= 10 {
        lemma_decimal_digits(n / 10);
        let d = decimal(n);
        let h = decimal(n / 10);
        assert forall|i: int| 0 <= i < d.len() implies is_digit(#[trigger] d[i]) by {
            if i < h.len() {
                assert(d[i] == h[i]);
            }
        }
    }
}

proof fn lemma_decimal_injective(x: nat, y: nat)
    requires
        decimal(x) == decimal(y),
    ensures
        x == y,
    decreases x,
{
    lemma_decimal_digits(x);
    lemma_decimal_digits(y);
    if x < 10 && y < 10 {
        assert(decimal(x)[0] == digit_char(x));
        assert(decimal(y)[0] == digit_char(y));
    } else if x < 10 && y >= 10 {
        lemma_decimal_digits(y / 10);
        assert(decimal(y).len() >= 2);
    } else if x >= 10 && y < 10 {
        lemma_decimal_digits(x / 10);
        assert(decimal(x).len() >= 2);
    } else if x >= 10 && y >= 10 {
        let dx = decimal(x);
        let dy = decimal(y);
        assert(dx[dx.len() - 1] == digit_char(x % 10));
        assert(dy[dy.len() - 1] == digit_char(y % 10));
        assert(x % 10 == y % 10);
        assert(decimal(x / 10) =~= dx.subrange(0, dx.len() - 1));
        assert(decimal(y / 10) =~= dy.subrange(0, dy.len() - 1));
        lemma_decimal_injective(x / 10, y / 10);
        assert(x == 10 * (x / 10) + x % 10);
        assert(y == 10 * (y / 10) + y % 10);
    }
}

/// Two numbers followed by the same separator split apart the same way.
proof fn lemma_split_number(x: nat, y: nat, c: char, s: Seq<char>, t: Seq<char>)
    requires
        !is_digit(c),
        decimal(x) + seq![c] + s == decimal(y) + seq![c] + t,
    ensures
        x == y,
        s == t,
{
    lemma_decimal_digits(x);
    lemma_decimal_digits(y);
    let dx = decimal(x);
    let dy = decimal(y);
    let l = dx + seq![c] + s;
    let r = dy + seq![c] + t;
    if dx.len() < dy.len() {
        assert(l[dx.len() as int] == c);
        assert(r[dx.len() as int] == dy[dx.len() as int]);
    } else if dy.len() < dx.len() {
        assert(r[dy.len() as int] == c);
        assert(l[dy.len() as int] == dx[dy.len() as int]);
    } else {
        assert(dx =~= l.subrange(0, dx.len() as int));
        assert(dy =~= r.subrange(0, dy.len() as int));
        lemma_decimal_injective(x, y);
        assert(s =~= l.subrange(dx.len() as int + 1, l.len() as int));
        assert(t =~= r.subrange(dy.len() as int + 1, r.len() as int));
    }
}

/// The URL of a front-end names its address: different addresses never give
/// the same URL, so a URL read back identifies the listener it came from.
pub proof fn lemma_rpc_url_identifies_addr(a: LocalAddr, b: LocalAddr)
    requires
        rpc_url_of(a) == rpc_url_of(b),
    ensures
        a.ip@ == b.ip@,
        a.port == b.port,
{
    assert(socket_text(a) =~= rpc_url_of(a).subrange(7, rpc_url_of(a).len() as int));
    assert(socket_text(b) =~= rpc_url_of(b).subrange(7, rpc_url_of(b).len() as int));
    let pa = decimal(a.port as nat);
    let pb = decimal(b.port as nat);
    let a3 = decimal(a.ip[3] as nat) + seq![':'] + pa;
    let b3 = decimal(b.ip[3] as nat) + seq![':'] + pb;
    let a2 = decimal(a.ip[2] as nat) + seq!['.'] + a3;
    let b2 = decimal(b.ip[2] as nat) + seq!['.'] + b3;
    let a1 = decimal(a.ip[1] as nat) + seq!['.'] + a2;
    let b1 = decimal(b.ip[1] as nat) + seq!['.'] + b2;
    lemma_split_number(a.ip[0] as nat, b.ip[0] as nat, '.', a1, b1);
    lemma_split_number(a.ip[1] as nat, b.ip[1] as nat, '.', a2, b2);
    lemma_split_number(a.ip[2] as nat, b.ip[2] as nat, '.', a3, b3);
    lemma_split_number(a.ip[3] as nat, b.ip[3] as nat, ':', pa, pb);
    lemma_decimal_injective(a.port as nat, b.port as nat);
    assert(a.ip@ =~= b.ip@);
}

fn digit_str(d: u32) -> (r: &'static str)
    requires
        d < 10,
    ensures
        r@ == seq![digit_char(d as nat)],
{
    proof {
        reveal_strlit("0");
        reveal_strlit("1");
        reveal_strlit("2");
        reveal_strlit("3");
        reveal_strlit("4");
        reveal_strlit("5");
        reveal_strlit("6");
        reveal_strlit("7");
        reveal_strlit("8");
        reveal_strlit("9");
    }
    if d == 0 { "0" }
    else if d == 1 { "1" }
    else if d == 2 { "2" }
    else if d == 3 { "3" }
    else if d == 4 { "4" }
    else if d == 5 { "5" }
    else if d == 6 { "6" }
    else if d == 7 { "7" }
    else if d == 8 { "8" }
    else { "9" }
}

/// Appends `n` in decimal to `s`.
pub fn push_decimal(s: &mut String, n: u32)
    ensures
        final(s)@ == old(s)@ + decimal(n as nat),
    decreases n,
{
    if n >= 10 {
        push_decimal(s, n / 10);
    }
    s.append(digit_str(n % 10));
    proof {
        assert(final(s)@ =~= old(s)@ + decimal(n as nat));
    }
}

/// Builds the URL under which the front-end bound at `addr` is reached.
pub fn rpc_url(addr: &LocalAddr) -> (r: String)
    ensures
        r@ == rpc_url_of(*addr),
{
    proof {
        reveal_strlit("http://");
        reveal_strlit(".");
        reveal_strlit(":");
    }
    let mut s = String::from_str("http://");
    let ghost g0 = s@;
    push_decimal(&mut s, addr.ip[0] as u32);
    s.append(".");
    let ghost g1 = s@;
    push_decimal(&mut s, addr.ip[1] as u32);
    s.append(".");
    let ghost g2 = s@;
    push_decimal(&mut s, addr.ip[2] as u32);
    s.append(".");
    let ghost g3 = s@;
    push_decimal(&mut s, addr.ip[3] as u32);
    s.append(":");
    push_decimal(&mut s, addr.port as u32);
    proof {
        let t3 = decimal(addr.ip[3] as nat) + seq![':'] + decimal(addr.port as nat);
        let t2 = decimal(addr.ip[2] as nat) + seq!['.'] + t3;
        let t1 = decimal(addr.ip[1] as nat) + seq!['.'] + t2;
        let t0 = decimal(addr.ip[0] as nat) + seq!['.'] + t1;
        assert(s@ =~= g3 + t3);
        assert(g3 + t3 =~= g2 + t2);
        assert(g2 + t2 =~= g1 + t1);
        assert(g1 + t1 =~= g0 + t0);
        assert(t0 == socket_text(*addr));
    }
    s
}

} // verus!
