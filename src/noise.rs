use vstd::prelude::*;
use vstd::wrapping::u64_specs;

verus! {

/// One step of the xorshift-multiply generator that drives the shuffle.
pub open spec fn scramble(h: u64) -> u64 {
    let a = h ^ (h >> 12u64);
    let b = a ^ (a << 25u64);
    let c = b ^ (b >> 27u64);
    u64_specs::wrapping_mul(c, 0x2545F4914F6CDD1Du64)
}

/// The generator state and the table after the first `n` steps of a
/// Fisher-Yates shuffle of `0..256` seeded by `seed`; step `n` swaps position
/// `256 - n` with a position drawn at or below it.
pub open spec fn shuffle(seed: u64, n: nat) -> (u64, Seq<u8>)
    decreases n,
{
    if n == 0 {
        (seed, Seq::new(256, |k: int| k as u8))
    } else {
        let (h, t) = shuffle(seed, (n - 1) as nat);
        let i = 256 - n;
        let h2 = scramble(h);
        let j = (h2 as int) % (i + 1);
        (h2, t.update(i, t[j]).update(j, t[i]))
    }
}

/// The permutation table of the gradient noise seeded by `seed`: a shuffle of
/// `0..256`, written out twice.
pub fn permutation_table(seed: u64) -> (r: Vec<u8>)
    ensures
        r@.len() == 512,
        forall|k: int| 0 <= k < 512 ==> #[trigger] r@[k] == shuffle(seed, 256).1[k % 256],
{
    let mut temp: Vec<u8> = Vec::new();
    let mut k: usize = 0;
    while k < 256
        invariant
            k <= 256,
            temp@.len() == k,
            forall|m: int| 0 <= m < k ==> #[trigger] temp@[m] == m as u8,
        decreases 256 - k,
    {
        temp.push(k as u8);
        k += 1;
    }
    assert(temp@ =~= shuffle(seed, 0).1);
    let mut hash = seed;
    let mut n: u64 = 0;
    while n < 256
        invariant
            n <= 256,
            (hash, temp@) == shuffle(seed, n as nat),
            temp@.len() == 256,
        decreases 256 - n,
    {
        let i = 255 - n;
        hash ^= hash >> 12;
        hash ^= hash << 25;
        hash ^= hash >> 27;
        hash = hash.wrapping_mul(0x2545F4914F6CDD1D);
        let j = (hash % (i + 1)) as usize;
        let a = temp[i as usize];
        let b = temp[j];
        temp.set(i as usize, b);
        temp.set(j, a);
        proof {
            let (h0, t0) = shuffle(seed, n as nat);
            assert(shuffle(seed, (n + 1) as nat) == {
                let h2 = scramble(h0);
                let jj = (h2 as int) % (i + 1);
                (h2, t0.update(i as int, t0[jj]).update(jj, t0[i as int]))
            });
        }
        n += 1;
    }
    let mut table: Vec<u8> = Vec::new();
    let mut m: usize = 0;
    while m < 512
        invariant
            m <= 512,
            temp@.len() == 256,
            temp@ == shuffle(seed, 256).1,
            table@.len() == m,
            forall|q: int| 0 <= q < m ==> #[trigger] table@[q] == temp@[q % 256],
        decreases 512 - m,
    {
        table.push(temp[m % 256]);
        m += 1;
    }
    table
}

} // verus!
