use vstd::prelude::*;

verus! {

/// The host name without its port: everything before the first `:`.
pub open spec fn host_without_port(h: Seq<char>) -> Seq<char>
    decreases h.len(),
{
    if h.len() == 0 {
        h
    } else if h[0] == ':' {
        Seq::empty()
    } else {
        seq![h[0]] + host_without_port(h.drop_first())
    }
}

/// Strips a `:port` suffix from a request host.
pub fn normalize_host(host: &str) -> (r: String)
    ensures
        r@ == host_without_port(host@),
{
    let n = host.unicode_len();
    let mut i: usize = 0;
    while i < n && host.get_char(i) != ':'
        invariant
            n == host@.len(),
            i <= n,
            forall|j: int| 0 <= j < i ==> host@[j] != ':',
        decreases n - i,
    {
        i = i + 1;
    }
    let prefix = host.substring_char(0, i);
    proof {
        lemma_host_prefix(host@, i as int);
    }
    prefix.to_owned()
}

proof fn lemma_host_prefix(h: Seq<char>, i: int)
    requires
        0 <= i <= h.len(),
        forall|j: int| 0 <= j < i ==> h[j] != ':',
        i == h.len() || h[i] == ':',
    ensures
        host_without_port(h) == h.subrange(0, i),
    decreases h.len(),
{
    if h.len() == 0 {
    } else if h[0] == ':' {
        assert(h.subrange(0, i) =~= Seq::empty());
    } else {
        lemma_host_prefix(h.drop_first(), i - 1);
        assert(h.subrange(0, i) =~= seq![h[0]] + h.drop_first().subrange(0, i - 1));
    }
}

} // verus!
