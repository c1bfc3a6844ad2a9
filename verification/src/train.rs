//! Stochastic gradient descent with backpropagation: per-sample gradients
//! by backward recursion over the layers, accumulated and averaged over a
//! batch, then applied to the network in place, batch by batch.
use vstd::prelude::*;
use crate::{
    Network, NetworkError, NetworkModel, model_wf, spec_layer_z, spec_map_act, spec_acts, spec_z,
    lemma_acts_len, seq_views, seq2_views,
};
use crate::activation::{ActivationFunction, act_of, deriv_of};
use crate::vector::{Vector, spec_vec_add, spec_vec_scale};
use crate::scalar::{add_bits, sub_bits, mul_bits, div_bits, usize_bits, f_add, f_sub, f_mul, f_div, f_usize};
use crate::source::{DataSource, pair_views};

verus! {

/// The error term of the output layer: elementwise, the difference between
/// the output activation and the target, times the activation derivative
/// at the output pre-activation. This is the gradient of the mean-squared
/// error with respect to the output pre-activation.
pub open spec fn spec_out_delta(
    m: NetworkModel,
    act: spec_fn(u64) -> u64,
    deriv: spec_fn(u64) -> u64,
    input: Seq<u64>,
    target: Seq<u64>,
) -> Seq<u64> {
    let ll = (m.config.len() - 1) as nat;
    let a = spec_acts(m, act, input, ll);
    let z = spec_z(m, act, input, ll);
    Seq::new(a.len(), |j: int| mul_bits(sub_bits(a[j], target[j]), deriv(z[j])))
}

/// The sum over the first `n` rows `k` of `w[k][j] * d[k]`: the dot
/// product of column `j` of `w` with `d`, added up from +0.0.
pub open spec fn spec_col_dot(w: Seq<Seq<u64>>, d: Seq<u64>, j: int, n: nat) -> u64
    decreases n,
{
    if n == 0 {
        0u64
    } else {
        add_bits(spec_col_dot(w, d, j, (n - 1) as nat), mul_bits(w[n - 1][j], d[n - 1]))
    }
}

/// The error term of the layer `dist` steps below the output layer;
/// `dist == 0` is the output layer itself. One step down, neuron `j`'s
/// term is the dot product of column `j` of the next layer's weights with
/// the next layer's error term, times the derivative at this layer's
/// pre-activation.
pub open spec fn spec_delta_rev(
    m: NetworkModel,
    act: spec_fn(u64) -> u64,
    deriv: spec_fn(u64) -> u64,
    input: Seq<u64>,
    target: Seq<u64>,
    dist: nat,
) -> Seq<u64>
    decreases dist,
{
    if dist == 0 {
        spec_out_delta(m, act, deriv, input, target)
    } else {
        let l = (m.config.len() - 1 - dist) as nat;
        let up = spec_delta_rev(m, act, deriv, input, target, (dist - 1) as nat);
        let z = spec_z(m, act, input, l);
        Seq::new(z.len(), |j: int| mul_bits(spec_col_dot(m.weights[l as int], up, j, up.len()), deriv(z[j])))
    }
}

/// The error term of layer `l` (1-based), for `1 <= l <= L`.
pub open spec fn spec_delta(
    m: NetworkModel,
    act: spec_fn(u64) -> u64,
    deriv: spec_fn(u64) -> u64,
    input: Seq<u64>,
    target: Seq<u64>,
    l: nat,
) -> Seq<u64> {
    spec_delta_rev(m, act, deriv, input, target, (m.config.len() - 1 - l) as nat)
}

/// One sample's bias gradients: per weight layer `l` (0-based), the error
/// term of layer `l + 1`.
pub open spec fn spec_nabla_b(
    m: NetworkModel,
    act: spec_fn(u64) -> u64,
    deriv: spec_fn(u64) -> u64,
    input: Seq<u64>,
    target: Seq<u64>,
) -> Seq<Seq<u64>> {
    Seq::new((m.config.len() - 1) as nat, |l: int| spec_delta(m, act, deriv, input, target, (l + 1) as nat))
}

/// One weight layer of one sample's weight gradients: row `j` is the
/// previous layer's activation scaled by the error term's entry `j`.
pub open spec fn spec_nw_layer(
    m: NetworkModel,
    act: spec_fn(u64) -> u64,
    deriv: spec_fn(u64) -> u64,
    input: Seq<u64>,
    target: Seq<u64>,
    l: nat,
) -> Seq<Seq<u64>> {
    let delta = spec_delta(m, act, deriv, input, target, l);
    let aprev = spec_acts(m, act, input, (l - 1) as nat);
    Seq::new(delta.len(), |j: int| spec_vec_scale(aprev, delta[j]))
}

/// One sample's weight gradients, per weight layer.
pub open spec fn spec_nabla_w(
    m: NetworkModel,
    act: spec_fn(u64) -> u64,
    deriv: spec_fn(u64) -> u64,
    input: Seq<u64>,
    target: Seq<u64>,
) -> Seq<Seq<Seq<u64>>> {
    Seq::new((m.config.len() - 1) as nat, |l: int| spec_nw_layer(m, act, deriv, input, target, (l + 1) as nat))
}

pub proof fn lemma_delta_rev_len(
    m: NetworkModel,
    act: spec_fn(u64) -> u64,
    deriv: spec_fn(u64) -> u64,
    input: Seq<u64>,
    target: Seq<u64>,
    dist: nat,
)
    requires
        model_wf(m),
        dist < m.config.len() - 1,
        input.len() == m.config[0],
    ensures
        spec_delta_rev(m, act, deriv, input, target, dist).len() == m.config[m.config.len() - 1
            - dist],
    decreases dist,
{
    if dist == 0 {
        lemma_acts_len(m, act, input, (m.config.len() - 1) as nat);
    } else {
        lemma_delta_rev_len(m, act, deriv, input, target, (dist - 1) as nat);
    }
}

/// The core of backpropagation for one training pair whose lengths fit
/// the configuration: the full forward pass with every intermediate kept,
/// then the backward recursion.
pub(crate) fn backprop_core<A: ActivationFunction>(
    net: &Network<A>,
    input: &Vector,
    target: &Vector,
) -> (r: (Vec<Vector>, Vec<Vec<Vector>>))
    requires
        net.wf(),
        net@.config.len() >= 2,
        input@.len() == net@.config[0],
        target@.len() == net@.config[net@.config.len() - 1],
    ensures
        seq_views(r.0@) == spec_nabla_b(net@, act_of::<A>(), deriv_of::<A>(), input@, target@),
        seq2_views(r.1@) == spec_nabla_w(net@, act_of::<A>(), deriv_of::<A>(), input@, target@),
{
    let ghost m = net@;
    let ghost actf = act_of::<A>();
    let ghost derivf = deriv_of::<A>();
    let ll: usize = net.configuration.len() - 1;

    // Forward pass, retaining every pre-activation and activation.
    let mut zs: Vec<Vector> = Vec::new();
    let mut acts: Vec<Vector> = Vec::new();
    acts.push(input.clone());
    let mut l: usize = 1;
    while l <= ll
        invariant
            net.wf(),
            m == net@,
            actf == act_of::<A>(),
            derivf == deriv_of::<A>(),
            ll == m.config.len() - 1,
            ll < usize::MAX,
            input@.len() == m.config[0],
            1 <= l <= ll + 1,
            zs@.len() == l - 1,
            acts@.len() == l,
            forall|k: int| 1 <= k < l ==> (#[trigger] zs@[k - 1])@ == spec_z(m, actf, input@, k as nat),
            forall|k: int| 0 <= k < l ==> (#[trigger] acts@[k])@ == spec_acts(m, actf, input@, k as nat),
        decreases ll + 1 - l,
    {
        proof {
            lemma_acts_len(m, actf, input@, (l - 1) as nat);
        }
        let prev = &acts[l - 1];
        let za = net.feed_layer_core(prev, l);
        zs.push(za.0);
        acts.push(za.1);
        proof {
            let li = l as int;
            assert(acts@[li]@ == spec_map_act(actf, zs@[li - 1]@));
            assert(zs@[li - 1]@ == spec_layer_z(m.weights[li - 1], m.biases[li - 1], acts@[li - 1]@));
            assert(acts@[li - 1]@ == spec_acts(m, actf, input@, (li - 1) as nat));
            assert(spec_acts(m, actf, input@, li as nat) == spec_map_act(
                actf,
                spec_layer_z(m.weights[li - 1], m.biases[li - 1], spec_acts(m, actf, input@, (li - 1) as nat)),
            ));
            assert(zs@[li - 1]@ == spec_z(m, actf, input@, li as nat));
        }
        l += 1;
    }

    // Output error term.
    proof {
        lemma_acts_len(m, actf, input@, ll as nat);
    }
    let deriv_top = net.activation_ref().derivative(&zs[ll - 1]);
    let mut d: Vec<u64> = Vec::new();
    let mut j: usize = 0;
    let width: usize = acts[ll].len();
    while j < width
        invariant
            actf == act_of::<A>(),
            derivf == deriv_of::<A>(),
            j <= width,
            d@.len() == j,
            ll == m.config.len() - 1,
            1 <= ll,
            zs@.len() == ll,
            acts@.len() == ll + 1,
            width == m.config[ll as int],
            acts@[ll as int]@ == spec_acts(m, actf, input@, ll as nat),
            zs@[ll - 1]@ == spec_z(m, actf, input@, ll as nat),
            acts@[ll as int]@.len() == width,
            target@.len() == width,
            deriv_top@.len() == zs@[ll - 1]@.len(),
            zs@[ll - 1]@.len() == width,
            forall|q: int|
                0 <= q < deriv_top@.len() ==> #[trigger] deriv_top@[q] == derivf(
                    zs@[ll - 1]@[q],
                ),
            forall|q: int|
                0 <= q < j ==> #[trigger] d@[q] == mul_bits(
                    sub_bits(acts@[ll as int]@[q], target@[q]),
                    derivf(zs@[ll - 1]@[q]),
                ),
        decreases width - j,
    {
        let av: u64 = acts[ll].inner_ref()[j];
        let tv: u64 = target.inner_ref()[j];
        let dv: u64 = deriv_top.inner_ref()[j];
        d.push(f_mul(f_sub(av, tv), dv));
        j += 1;
    }
    let mut delta = Vector::from(d);
    proof {
        assert(delta@ =~= spec_out_delta(m, actf, derivf, input@, target@));
        assert(delta@ == spec_delta_rev(m, actf, derivf, input@, target@, 0nat));
    }

    // Backward recursion, collecting gradients from the output layer down.
    let mut rev_nb: Vec<Vector> = Vec::new();
    let mut rev_nw: Vec<Vec<Vector>> = Vec::new();
    rev_nb.push(delta.clone());
    rev_nw.push(scale_rows(&acts[ll - 1], &delta));
    proof {
        lemma_acts_len(m, actf, input@, (ll - 1) as nat);
        assert(seq_views(rev_nw@[0]@) =~= spec_nw_layer(m, actf, derivf, input@, target@, ll as nat));
    }
    let mut dist: usize = 1;
    while dist < ll
        invariant
            net.wf(),
            m == net@,
            actf == act_of::<A>(),
            derivf == deriv_of::<A>(),
            ll == m.config.len() - 1,
            1 <= ll,
            input@.len() == m.config[0],
            target@.len() == m.config[ll as int],
            1 <= dist <= ll,
            zs@.len() == ll,
            acts@.len() == ll + 1,
            forall|k: int| 1 <= k <= ll ==> (#[trigger] zs@[k - 1])@ == spec_z(m, actf, input@, k as nat),
            forall|k: int| 0 <= k <= ll ==> (#[trigger] acts@[k])@ == spec_acts(m, actf, input@, k as nat),
            rev_nb@.len() == dist,
            rev_nw@.len() == dist,
            delta@ == spec_delta_rev(m, actf, derivf, input@, target@, (dist - 1) as nat),
            forall|q: int|
                0 <= q < dist ==> (#[trigger] rev_nb@[q])@ == spec_delta_rev(
                    m,
                    actf,
                    derivf,
                    input@,
                    target@,
                    q as nat,
                ),
            forall|q: int|
                0 <= q < dist ==> seq_views((#[trigger] rev_nw@[q])@) == spec_nw_layer(
                    m,
                    actf,
                    derivf,
                    input@,
                    target@,
                    (ll - q) as nat,
                ),
        decreases ll - dist,
    {
        let lay: usize = ll - dist;  // the layer whose error term comes next
        proof {
            lemma_delta_rev_len(m, actf, derivf, input@, target@, (dist - 1) as nat);
            lemma_acts_len(m, actf, input@, lay as nat);
            lemma_acts_len(m, actf, input@, (lay - 1) as nat);
        }
        let up_len: usize = delta.len();
        let deriv_lay = net.activation_ref().derivative(&zs[lay - 1]);
        let width2: usize = net.configuration[lay];
        proof {
            assert(zs@[lay - 1]@ == spec_z(m, actf, input@, lay as nat));
            assert(zs@[lay - 1]@.len() == m.weights[lay - 1].len());
            assert forall|q: int| 0 <= q < deriv_lay@.len() implies #[trigger] deriv_lay@[q]
                == derivf(zs@[lay - 1]@[q]) by {
                assert(derivf(zs@[lay - 1]@[q]) == A::deriv_bits(zs@[lay - 1]@[q]));
            }
        }
        let mut nd: Vec<u64> = Vec::new();
        let mut j2: usize = 0;
        while j2 < width2
            invariant
                net.wf(),
                m == net@,
                actf == act_of::<A>(),
                derivf == deriv_of::<A>(),
                ll == m.config.len() - 1,
                1 <= dist < ll,
                lay == ll - dist,
                width2 == m.config[lay as int],
                up_len == delta@.len(),
                up_len == m.config[lay + 1],
                delta@ == spec_delta_rev(m, actf, derivf, input@, target@, (dist - 1) as nat),
                zs@.len() == ll,
                zs@[lay - 1]@ == spec_z(m, actf, input@, lay as nat),
                zs@[lay - 1]@.len() == width2,
                deriv_lay@.len() == width2,
                forall|q: int|
                    0 <= q < width2 ==> #[trigger] deriv_lay@[q] == derivf(zs@[lay - 1]@[q]),
                j2 <= width2,
                nd@.len() == j2,
                forall|q: int|
                    0 <= q < j2 ==> #[trigger] nd@[q] == mul_bits(
                        spec_col_dot(m.weights[lay as int], delta@, q, delta@.len()),
                        derivf(zs@[lay - 1]@[q]),
                    ),
            decreases width2 - j2,
        {
            // dot product of column j2 of the next layer's weights with
            // the error term above
            let mut acc: u64 = 0;
            let mut k: usize = 0;
            while k < up_len
                invariant
                    net.wf(),
                    m == net@,
                    ll == m.config.len() - 1,
                    1 <= dist < ll,
                    lay == ll - dist,
                    j2 < width2,
                    width2 == m.config[lay as int],
                    up_len == delta@.len(),
                    up_len == m.config[lay + 1],
                    k <= up_len,
                    acc == spec_col_dot(m.weights[lay as int], delta@, j2 as int, k as nat),
                decreases up_len - k,
            {
                let row = net.weight_row(lay, k);
                let wv: u64 = row.inner_ref()[j2];
                let dv: u64 = delta.inner_ref()[k];
                acc = f_add(acc, f_mul(wv, dv));
                k += 1;
            }
            let dv2: u64 = deriv_lay.inner_ref()[j2];
            nd.push(f_mul(acc, dv2));
            j2 += 1;
        }
        delta = Vector::from(nd);
        proof {
            assert(delta@ =~= spec_delta_rev(m, actf, derivf, input@, target@, dist as nat));
        }
        rev_nb.push(delta.clone());
        rev_nw.push(scale_rows(&acts[lay - 1], &delta));
        proof {
            assert(seq_views(rev_nw@[dist as int]@) =~= spec_nw_layer(
                m,
                actf,
                derivf,
                input@,
                target@,
                lay as nat,
            ));
        }
        dist += 1;
    }

    // Reverse into forward layer order.
    let mut nb: Vec<Vector> = Vec::new();
    let mut nw: Vec<Vec<Vector>> = Vec::new();
    let mut left: usize = ll;
    while left > 0
        invariant
            actf == act_of::<A>(),
            derivf == deriv_of::<A>(),
            ll == m.config.len() - 1,
            rev_nb@.len() == left,
            rev_nw@.len() == left,
            nb@.len() == ll - left,
            nw@.len() == ll - left,
            forall|q: int|
                0 <= q < left ==> (#[trigger] rev_nb@[q])@ == spec_delta_rev(
                    m,
                    actf,
                    derivf,
                    input@,
                    target@,
                    q as nat,
                ),
            forall|q: int|
                0 <= q < left ==> seq_views((#[trigger] rev_nw@[q])@) == spec_nw_layer(
                    m,
                    actf,
                    derivf,
                    input@,
                    target@,
                    (ll - q) as nat,
                ),
            forall|q: int|
                0 <= q < ll - left ==> (#[trigger] nb@[q])@ == spec_delta(
                    m,
                    actf,
                    derivf,
                    input@,
                    target@,
                    (q + 1) as nat,
                ),
            forall|q: int|
                0 <= q < ll - left ==> seq_views((#[trigger] nw@[q])@) == spec_nw_layer(
                    m,
                    actf,
                    derivf,
                    input@,
                    target@,
                    (q + 1) as nat,
                ),
        decreases left,
    {
        let v = rev_nb.pop().unwrap();
        let w = rev_nw.pop().unwrap();
        proof {
            assert(v@ == spec_delta_rev(m, actf, derivf, input@, target@, (left - 1) as nat));
            assert(spec_delta(m, actf, derivf, input@, target@, (ll - left + 1) as nat)
                == spec_delta_rev(m, actf, derivf, input@, target@, (left - 1) as nat));
        }
        nb.push(v);
        nw.push(w);
        left -= 1;
    }
    proof {
        assert(seq_views(nb@) =~= spec_nabla_b(m, actf, derivf, input@, target@));
        assert(seq2_views(nw@) =~= spec_nabla_w(m, actf, derivf, input@, target@));
    }
    (nb, nw)
}

/// The rows of one weight-gradient layer: the previous layer's activation
/// scaled by each entry of the error term in turn.
fn scale_rows(aprev: &Vector, delta: &Vector) -> (r: Vec<Vector>)
    ensures
        r@.len() == delta@.len(),
        forall|j: int| 0 <= j < delta@.len() ==> (#[trigger] r@[j])@ == spec_vec_scale(aprev@, delta@[j]),
{
    let mut out: Vec<Vector> = Vec::new();
    let mut j: usize = 0;
    let n: usize = delta.len();
    while j < n
        invariant
            j <= n,
            n == delta@.len(),
            out@.len() == j,
            forall|q: int| 0 <= q < j ==> (#[trigger] out@[q])@ == spec_vec_scale(aprev@, delta@[q]),
        decreases n - j,
    {
        let f: u64 = delta.inner_ref()[j];
        out.push(aprev.scale(f));
        j += 1;
    }
    out
}

/// Backpropagation for one training pair: the per-layer bias and weight
/// gradients of the mean-squared error on that pair, or the length
/// mismatch if the pair does not fit the configuration.
pub fn backpropagate<A: ActivationFunction>(io_pair: (Vector, Vector), net: &Network<A>) -> (r:
    Result<(Vec<Vector>, Vec<Vec<Vector>>), NetworkError>)
    requires
        net.wf(),
        net@.config.len() >= 2,
    ensures
        match r {
            Ok(g) => {
                &&& io_pair.0@.len() == net@.config[0]
                &&& io_pair.1@.len() == net@.config[net@.config.len() - 1]
                &&& seq_views(g.0@) == spec_nabla_b(
                    net@,
                    act_of::<A>(),
                    deriv_of::<A>(),
                    io_pair.0@,
                    io_pair.1@,
                )
                &&& seq2_views(g.1@) == spec_nabla_w(
                    net@,
                    act_of::<A>(),
                    deriv_of::<A>(),
                    io_pair.0@,
                    io_pair.1@,
                )
            },
            Err(e) => e == NetworkError::DimensionMismatch && !(io_pair.0@.len() == net@.config[0]
                && io_pair.1@.len() == net@.config[net@.config.len() - 1]),
        },
{
    let (input, target) = io_pair;
    if input.len() != net.configuration[0] || target.len() != net.configuration[
        net.configuration.len() - 1
    ] {
        return Err(NetworkError::DimensionMismatch);
    }
    Ok(backprop_core(net, &input, &target))
}


/// Whether one training pair fits the configuration: the input as long as
/// the first entry, the target as long as the last.
pub open spec fn sample_ok(m: NetworkModel, s: (Seq<u64>, Seq<u64>)) -> bool {
    s.0.len() == m.config[0] && s.1.len() == m.config[m.config.len() - 1]
}

pub open spec fn batch_ok(m: NetworkModel, batch: Seq<(Seq<u64>, Seq<u64>)>) -> bool {
    forall|i: int| 0 <= i < batch.len() ==> sample_ok(m, #[trigger] batch[i])
}

/// Zero bias gradients, shaped like the network's biases.
pub open spec fn spec_zero2(m: NetworkModel) -> Seq<Seq<u64>> {
    Seq::new((m.config.len() - 1) as nat, |l: int| Seq::new(m.config[l + 1] as nat, |j: int| 0u64))
}

/// Zero weight gradients, shaped like the network's weights.
pub open spec fn spec_zero3(m: NetworkModel) -> Seq<Seq<Seq<u64>>> {
    Seq::new(
        (m.config.len() - 1) as nat,
        |l: int| Seq::new(m.config[l + 1] as nat, |j: int| Seq::new(m.config[l] as nat, |i: int| 0u64)),
    )
}

pub open spec fn seq2_add(x: Seq<Seq<u64>>, y: Seq<Seq<u64>>) -> Seq<Seq<u64>> {
    Seq::new(x.len(), |l: int| Seq::new(x[l].len(), |j: int| add_bits(x[l][j], y[l][j])))
}

pub open spec fn seq3_add(x: Seq<Seq<Seq<u64>>>, y: Seq<Seq<Seq<u64>>>) -> Seq<Seq<Seq<u64>>> {
    Seq::new(
        x.len(),
        |l: int|
            Seq::new(
                x[l].len(),
                |j: int| Seq::new(x[l][j].len(), |i: int| add_bits(x[l][j][i], y[l][j][i])),
            ),
    )
}

/// The elementwise sum of the bias gradients of the first `k` samples of a
/// batch, starting from zeros.
pub open spec fn spec_batch_nb(
    m: NetworkModel,
    act: spec_fn(u64) -> u64,
    deriv: spec_fn(u64) -> u64,
    batch: Seq<(Seq<u64>, Seq<u64>)>,
    k: nat,
) -> Seq<Seq<u64>>
    decreases k,
{
    if k == 0 {
        spec_zero2(m)
    } else {
        seq2_add(
            spec_batch_nb(m, act, deriv, batch, (k - 1) as nat),
            spec_nabla_b(m, act, deriv, batch[k - 1].0, batch[k - 1].1),
        )
    }
}

/// The elementwise sum of the weight gradients of the first `k` samples of
/// a batch, starting from zeros.
pub open spec fn spec_batch_nw(
    m: NetworkModel,
    act: spec_fn(u64) -> u64,
    deriv: spec_fn(u64) -> u64,
    batch: Seq<(Seq<u64>, Seq<u64>)>,
    k: nat,
) -> Seq<Seq<Seq<u64>>>
    decreases k,
{
    if k == 0 {
        spec_zero3(m)
    } else {
        seq3_add(
            spec_batch_nw(m, act, deriv, batch, (k - 1) as nat),
            spec_nabla_w(m, act, deriv, batch[k - 1].0, batch[k - 1].1),
        )
    }
}


pub proof fn lemma_batch_nb_shape(
    m: NetworkModel,
    act: spec_fn(u64) -> u64,
    deriv: spec_fn(u64) -> u64,
    batch: Seq<(Seq<u64>, Seq<u64>)>,
    k: nat,
)
    requires
        m.config.len() >= 1,
    ensures
        spec_batch_nb(m, act, deriv, batch, k).len() == m.config.len() - 1,
        forall|l: int|
            0 <= l < m.config.len() - 1 ==> #[trigger] spec_batch_nb(m, act, deriv, batch, k)[l].len()
                == m.config[l + 1],
    decreases k,
{
    if k > 0 {
        lemma_batch_nb_shape(m, act, deriv, batch, (k - 1) as nat);
    }
}

pub proof fn lemma_batch_nw_shape(
    m: NetworkModel,
    act: spec_fn(u64) -> u64,
    deriv: spec_fn(u64) -> u64,
    batch: Seq<(Seq<u64>, Seq<u64>)>,
    k: nat,
)
    requires
        m.config.len() >= 1,
    ensures
        spec_batch_nw(m, act, deriv, batch, k).len() == m.config.len() - 1,
        forall|l: int|
            0 <= l < m.config.len() - 1 ==> #[trigger] spec_batch_nw(m, act, deriv, batch, k)[l].len()
                == m.config[l + 1],
        forall|l: int, j: int|
            0 <= l < m.config.len() - 1 && 0 <= j < spec_batch_nw(m, act, deriv, batch, k)[l].len()
                ==> (#[trigger] spec_batch_nw(m, act, deriv, batch, k)[l][j]).len() == m.config[l],
    decreases k,
{
    if k > 0 {
        lemma_batch_nw_shape(m, act, deriv, batch, (k - 1) as nat);
    }
}

/// One parameter's update: subtract the learning rate times the summed
/// gradient averaged over the batch size.
pub open spec fn spec_upd(w: u64, g: u64, eta: u64, nf: u64) -> u64 {
    sub_bits(w, mul_bits(eta, div_bits(g, nf)))
}

/// The model with every bias and weight updated from the given summed
/// gradients, averaged by the batch size already folded into `nf`.
pub open spec fn spec_update_model(
    m: NetworkModel,
    nb: Seq<Seq<u64>>,
    nw: Seq<Seq<Seq<u64>>>,
    eta: u64,
    nf: u64,
) -> NetworkModel {
    NetworkModel {
        config: m.config,
        biases: Seq::new(
            m.biases.len(),
            |l: int| Seq::new(m.biases[l].len(), |j: int| spec_upd(m.biases[l][j], nb[l][j], eta, nf)),
        ),
        weights: Seq::new(
            m.weights.len(),
            |l: int|
                Seq::new(
                    m.weights[l].len(),
                    |j: int|
                        Seq::new(
                            m.weights[l][j].len(),
                            |i: int| spec_upd(m.weights[l][j][i], nw[l][j][i], eta, nf),
                        ),
                ),
        ),
    }
}

/// One whole batch applied to the model: sum each sample's gradients,
/// divide by the batch size, and subtract scaled by the learning rate.
pub open spec fn spec_apply_batch(
    m: NetworkModel,
    act: spec_fn(u64) -> u64,
    deriv: spec_fn(u64) -> u64,
    batch: Seq<(Seq<u64>, Seq<u64>)>,
    eta: u64,
    ss: usize,
) -> NetworkModel {
    spec_update_model(
        m,
        spec_batch_nb(m, act, deriv, batch, batch.len()),
        spec_batch_nw(m, act, deriv, batch, batch.len()),
        eta,
        usize_bits(ss),
    )
}

/// The stream cut into full batches of `ss` pairs; a trailing partial
/// batch is dropped.
pub open spec fn spec_batches(stream: Seq<(Seq<u64>, Seq<u64>)>, ss: usize) -> Seq<
    Seq<(Seq<u64>, Seq<u64>)>,
> {
    Seq::new(
        (stream.len() as int / ss as int) as nat,
        |b: int| stream.subrange(b * ss, (b + 1) * ss),
    )
}

/// The model after the first `k` batches have been applied in turn.
pub open spec fn spec_apply_prefix(
    m: NetworkModel,
    act: spec_fn(u64) -> u64,
    deriv: spec_fn(u64) -> u64,
    batches: Seq<Seq<(Seq<u64>, Seq<u64>)>>,
    eta: u64,
    ss: usize,
    k: nat,
) -> NetworkModel
    decreases k,
{
    if k == 0 {
        m
    } else {
        spec_apply_batch(
            spec_apply_prefix(m, act, deriv, batches, eta, ss, (k - 1) as nat),
            act,
            deriv,
            batches[k - 1],
            eta,
            ss,
        )
    }
}

/// Zero bias-gradient accumulators shaped like the network.
fn zero_nb<A: ActivationFunction>(net: &Network<A>) -> (r: Vec<Vector>)
    requires
        net.wf(),
    ensures
        seq_views(r@) == spec_zero2(net@),
{
    let ll: usize = net.configuration.len() - 1;
    let mut out: Vec<Vector> = Vec::new();
    let mut l: usize = 0;
    while l < ll
        invariant
            net.wf(),
            ll == net@.config.len() - 1,
            l <= ll,
            out@.len() == l,
            forall|q: int| 0 <= q < l ==> (#[trigger] out@[q])@.len() == net@.config[q + 1],
            forall|q: int, j: int|
                0 <= q < l && 0 <= j < out@[q]@.len() ==> (#[trigger] out@[q]@[j]) == 0u64,
        decreases ll - l,
    {
        out.push(Vector::new(net.configuration[l + 1]));
        l += 1;
    }
    proof {
        assert forall|q: int| 0 <= q < ll implies seq_views(out@)[q] == spec_zero2(net@)[q] by {
            assert(seq_views(out@)[q] =~= spec_zero2(net@)[q]);
        }
        assert(seq_views(out@) =~= spec_zero2(net@));
    }
    out
}

/// Zero weight-gradient accumulators shaped like the network.
fn zero_nw<A: ActivationFunction>(net: &Network<A>) -> (r: Vec<Vec<Vector>>)
    requires
        net.wf(),
    ensures
        seq2_views(r@) == spec_zero3(net@),
{
    let ll: usize = net.configuration.len() - 1;
    let mut out: Vec<Vec<Vector>> = Vec::new();
    let mut l: usize = 0;
    while l < ll
        invariant
            net.wf(),
            ll == net@.config.len() - 1,
            l <= ll,
            out@.len() == l,
            forall|q: int| 0 <= q < l ==> (#[trigger] out@[q])@.len() == net@.config[q + 1],
            forall|q: int, j: int|
                0 <= q < l && 0 <= j < out@[q]@.len() ==> (#[trigger] out@[q]@[j])@.len()
                    == net@.config[q],
            forall|q: int, j: int, i: int|
                0 <= q < l && 0 <= j < out@[q]@.len() && 0 <= i < out@[q]@[j]@.len() ==> (
                #[trigger] out@[q]@[j]@[i]) == 0u64,
        decreases ll - l,
    {
        let rows_n: usize = net.configuration[l + 1];
        let cols_n: usize = net.configuration[l];
        let mut rows: Vec<Vector> = Vec::new();
        let mut j: usize = 0;
        while j < rows_n
            invariant
                j <= rows_n,
                rows@.len() == j,
                forall|q: int| 0 <= q < j ==> (#[trigger] rows@[q])@.len() == cols_n,
                forall|q: int, i: int|
                    0 <= q < j && 0 <= i < rows@[q]@.len() ==> (#[trigger] rows@[q]@[i]) == 0u64,
            decreases rows_n - j,
        {
            rows.push(Vector::new(cols_n));
            j += 1;
        }
        out.push(rows);
        l += 1;
    }
    proof {
        assert forall|q: int| 0 <= q < ll implies seq2_views(out@)[q] == spec_zero3(net@)[q] by {
            assert forall|j: int|
                0 <= j < out@[q]@.len() implies seq_views(out@[q]@)[j] == spec_zero3(net@)[q][j] by {
                assert(seq_views(out@[q]@)[j] =~= spec_zero3(net@)[q][j]);
            }
            assert(seq2_views(out@)[q] =~= spec_zero3(net@)[q]);
        }
        assert(seq2_views(out@) =~= spec_zero3(net@));
    }
    out
}

/// Elementwise sum of two equally shaped bias-gradient stacks.
fn add_nb(acc: Vec<Vector>, g: Vec<Vector>) -> (r: Vec<Vector>)
    requires
        acc@.len() == g@.len(),
        forall|l: int| 0 <= l < acc@.len() ==> (#[trigger] acc@[l])@.len() == g@[l]@.len(),
    ensures
        seq_views(r@) == seq2_add(seq_views(acc@), seq_views(g@)),
{
    let mut out: Vec<Vector> = Vec::new();
    let mut l: usize = 0;
    let n: usize = acc.len();
    while l < n
        invariant
            n == acc@.len(),
            acc@.len() == g@.len(),
            forall|q: int| 0 <= q < acc@.len() ==> (#[trigger] acc@[q])@.len() == g@[q]@.len(),
            l <= n,
            out@.len() == l,
            forall|q: int|
                0 <= q < l ==> (#[trigger] out@[q])@ == spec_vec_add(acc@[q]@, g@[q]@),
        decreases n - l,
    {
        let s = match acc[l].add(&g[l]) {
            Ok(v) => v,
            Err(_) => {
                proof {
                    assert(false);
                }
                Vector::new(0)
            },
        };
        out.push(s);
        l += 1;
    }
    proof {
        assert forall|q: int| 0 <= q < n implies seq_views(out@)[q] == seq2_add(
            seq_views(acc@),
            seq_views(g@),
        )[q] by {
            assert(seq_views(out@)[q] =~= seq2_add(seq_views(acc@), seq_views(g@))[q]);
        }
        assert(seq_views(out@) =~= seq2_add(seq_views(acc@), seq_views(g@)));
    }
    out
}

/// Elementwise sum of two equally shaped weight-gradient stacks.
fn add_nw(acc: Vec<Vec<Vector>>, g: Vec<Vec<Vector>>) -> (r: Vec<Vec<Vector>>)
    requires
        acc@.len() == g@.len(),
        forall|l: int| 0 <= l < acc@.len() ==> (#[trigger] acc@[l])@.len() == g@[l]@.len(),
        forall|l: int, j: int|
            0 <= l < acc@.len() && 0 <= j < acc@[l]@.len() ==> (#[trigger] acc@[l]@[j])@.len()
                == g@[l]@[j]@.len(),
    ensures
        seq2_views(r@) == seq3_add(seq2_views(acc@), seq2_views(g@)),
{
    let mut out: Vec<Vec<Vector>> = Vec::new();
    let mut l: usize = 0;
    let n: usize = acc.len();
    while l < n
        invariant
            n == acc@.len(),
            acc@.len() == g@.len(),
            forall|q: int| 0 <= q < acc@.len() ==> (#[trigger] acc@[q])@.len() == g@[q]@.len(),
            forall|q: int, j: int|
                0 <= q < acc@.len() && 0 <= j < acc@[q]@.len() ==> (#[trigger] acc@[q]@[j])@.len()
                    == g@[q]@[j]@.len(),
            l <= n,
            out@.len() == l,
            forall|q: int|
                0 <= q < l ==> (#[trigger] out@[q])@.len() == acc@[q]@.len(),
            forall|q: int, j: int|
                0 <= q < l && 0 <= j < out@[q]@.len() ==> (#[trigger] out@[q]@[j])@ == spec_vec_add(
                    acc@[q]@[j]@,
                    g@[q]@[j]@,
                ),
        decreases n - l,
    {
        let rows_n: usize = acc[l].len();
        let mut rows: Vec<Vector> = Vec::new();
        let mut j: usize = 0;
        while j < rows_n
            invariant
                l < n,
                n == acc@.len(),
                acc@.len() == g@.len(),
                rows_n == acc@[l as int]@.len(),
                forall|q: int, jj: int|
                    0 <= q < acc@.len() && 0 <= jj < acc@[q]@.len() ==> (
                    #[trigger] acc@[q]@[jj])@.len() == g@[q]@[jj]@.len(),
                acc@[l as int]@.len() == g@[l as int]@.len(),
                j <= rows_n,
                rows@.len() == j,
                forall|q: int|
                    0 <= q < j ==> (#[trigger] rows@[q])@ == spec_vec_add(
                        acc@[l as int]@[q]@,
                        g@[l as int]@[q]@,
                    ),
            decreases rows_n - j,
        {
            let s = match acc[l][j].add(&g[l][j]) {
                Ok(v) => v,
                Err(_) => {
                    proof {
                        assert(false);
                    }
                    Vector::new(0)
                },
            };
            rows.push(s);
            j += 1;
        }
        out.push(rows);
        l += 1;
    }
    proof {
        assert forall|q: int| 0 <= q < n implies seq2_views(out@)[q] == seq3_add(
            seq2_views(acc@),
            seq2_views(g@),
        )[q] by {
            assert forall|j: int|
                0 <= j < out@[q]@.len() implies seq_views(out@[q]@)[j] == seq3_add(
                seq2_views(acc@),
                seq2_views(g@),
            )[q][j] by {
                assert(seq_views(out@[q]@)[j] =~= seq3_add(seq2_views(acc@), seq2_views(g@))[q][j]);
            }
            assert(seq2_views(out@)[q] =~= seq3_add(seq2_views(acc@), seq2_views(g@))[q]);
        }
        assert(seq2_views(out@) =~= seq3_add(seq2_views(acc@), seq2_views(g@)));
    }
    out
}

/// Applies one batch's summed gradients to the network in place:
/// every bias and weight moves by the learning rate times the averaged
/// gradient.
fn apply_update<A: ActivationFunction>(
    net: &mut Network<A>,
    nb: Vec<Vector>,
    nw: Vec<Vec<Vector>>,
    eta: u64,
    ss: usize,
)
    requires
        old(net).wf(),
        nb@.len() == old(net)@.config.len() - 1,
        forall|l: int| 0 <= l < nb@.len() ==> (#[trigger] nb@[l])@.len() == old(net)@.config[l + 1],
        nw@.len() == old(net)@.config.len() - 1,
        forall|l: int| 0 <= l < nw@.len() ==> (#[trigger] nw@[l])@.len() == old(net)@.config[l + 1],
        forall|l: int, j: int|
            0 <= l < nw@.len() && 0 <= j < nw@[l]@.len() ==> (#[trigger] nw@[l]@[j])@.len() == old(
                net,
            )@.config[l],
    ensures
        final(net).wf(),
        final(net)@ == spec_update_model(
            old(net)@,
            seq_views(nb@),
            seq2_views(nw@),
            eta,
            usize_bits(ss),
        ),
{
    let ghost m = old(net)@;
    let nf: u64 = f_usize(ss);
    let ll: usize = net.configuration.len() - 1;
    let mut new_b: Vec<Vector> = Vec::new();
    let mut new_w: Vec<Vec<Vector>> = Vec::new();
    let mut l: usize = 0;
    while l < ll
        invariant
            net.wf(),
            m == net@,
            nf == usize_bits(ss),
            ll == m.config.len() - 1,
            nb@.len() == ll,
            forall|q: int| 0 <= q < nb@.len() ==> (#[trigger] nb@[q])@.len() == m.config[q + 1],
            nw@.len() == ll,
            forall|q: int| 0 <= q < nw@.len() ==> (#[trigger] nw@[q])@.len() == m.config[q + 1],
            forall|q: int, j: int|
                0 <= q < nw@.len() && 0 <= j < nw@[q]@.len() ==> (#[trigger] nw@[q]@[j])@.len()
                    == m.config[q],
            l <= ll,
            new_b@.len() == l,
            new_w@.len() == l,
            forall|q: int|
                0 <= q < l ==> (#[trigger] new_b@[q])@.len() == m.config[q + 1],
            forall|q: int, j: int|
                0 <= q < l && 0 <= j < new_b@[q]@.len() ==> (#[trigger] new_b@[q]@[j]) == spec_upd(
                    m.biases[q][j],
                    nb@[q]@[j],
                    eta,
                    nf,
                ),
            forall|q: int|
                0 <= q < l ==> (#[trigger] new_w@[q])@.len() == m.config[q + 1],
            forall|q: int, j: int|
                0 <= q < l && 0 <= j < new_w@[q]@.len() ==> (#[trigger] new_w@[q]@[j])@.len()
                    == m.config[q],
            forall|q: int, j: int, i: int|
                0 <= q < l && 0 <= j < new_w@[q]@.len() && 0 <= i < new_w@[q]@[j]@.len() ==> (
                #[trigger] new_w@[q]@[j]@[i]) == spec_upd(
                    m.weights[q][j][i],
                    nw@[q]@[j]@[i],
                    eta,
                    nf,
                ),
        decreases ll - l,
    {
        let layer: usize = l + 1;
        let width: usize = net.configuration[layer];
        let cols: usize = net.configuration[l];
        let mut bvals: Vec<u64> = Vec::new();
        let mut rows: Vec<Vector> = Vec::new();
        let mut j: usize = 0;
        while j < width
            invariant
                net.wf(),
                m == net@,
                nf == usize_bits(ss),
                ll == m.config.len() - 1,
                l < ll,
                layer == l + 1,
                width == m.config[l + 1],
                cols == m.config[l as int],
                nb@.len() == ll,
                nb@[l as int]@.len() == width,
                nw@.len() == ll,
                nw@[l as int]@.len() == width,
                forall|jj: int|
                    0 <= jj < nw@[l as int]@.len() ==> (#[trigger] nw@[l as int]@[jj])@.len()
                        == m.config[l as int],
                j <= width,
                bvals@.len() == j,
                rows@.len() == j,
                forall|q: int|
                    0 <= q < j ==> #[trigger] bvals@[q] == spec_upd(
                        m.biases[l as int][q],
                        nb@[l as int]@[q],
                        eta,
                        nf,
                    ),
                forall|q: int|
                    0 <= q < j ==> (#[trigger] rows@[q])@.len() == m.config[l as int],
                forall|q: int, i: int|
                    0 <= q < j && 0 <= i < rows@[q]@.len() ==> (#[trigger] rows@[q]@[i])
                        == spec_upd(m.weights[l as int][q][i], nw@[l as int]@[q]@[i], eta, nf),
            decreases width - j,
        {
            let bw: u64 = net.bias(layer, j);
            let gb: u64 = nb[l].inner_ref()[j];
            bvals.push(f_sub(bw, f_mul(eta, f_div(gb, nf))));
            let mut wvals: Vec<u64> = Vec::new();
            let mut i: usize = 0;
            while i < cols
                invariant
                    net.wf(),
                    m == net@,
                    nf == usize_bits(ss),
                    ll == m.config.len() - 1,
                    l < ll,
                    layer == l + 1,
                    j < width,
                    width == m.config[l + 1],
                    cols == m.config[l as int],
                    nw@.len() == ll,
                    nw@[l as int]@.len() == width,
                    nw@[l as int]@[j as int]@.len() == cols,
                    i <= cols,
                    wvals@.len() == i,
                    forall|q: int|
                        0 <= q < i ==> #[trigger] wvals@[q] == spec_upd(
                            m.weights[l as int][j as int][q],
                            nw@[l as int]@[j as int]@[q],
                            eta,
                            nf,
                        ),
                decreases cols - i,
            {
                let ww: u64 = net.weight(layer, j, i);
                let gw: u64 = nw[l][j].inner_ref()[i];
                wvals.push(f_sub(ww, f_mul(eta, f_div(gw, nf))));
                i += 1;
            }
            rows.push(Vector::from(wvals));
            j += 1;
        }
        new_b.push(Vector::from(bvals));
        new_w.push(rows);
        l += 1;
    }
    let ghost target = spec_update_model(m, seq_views(nb@), seq2_views(nw@), eta, usize_bits(ss));
    proof {
        assert(model_wf(
            (NetworkModel {
                config: m.config,
                biases: seq_views(new_b@),
                weights: seq2_views(new_w@),
            }),
        ));
    }
    net.set_parameters(new_b, new_w);
    proof {
        assert forall|q: int| 0 <= q < ll implies net@.biases[q] == target.biases[q] by {
            assert(net@.biases[q] =~= target.biases[q]);
        }
        assert(net@.biases =~= target.biases);
        assert forall|q: int| 0 <= q < ll implies net@.weights[q] == target.weights[q] by {
            assert forall|j: int|
                0 <= j < net@.weights[q].len() implies net@.weights[q][j] == target.weights[q][j] by {
                assert(net@.weights[q][j] =~= target.weights[q][j]);
            }
            assert(net@.weights[q] =~= target.weights[q]);
        }
        assert(net@.weights =~= target.weights);
    }
}


/// Stochastic gradient descent: a learning rate and a batch size; no
/// other state persists across training calls.
pub struct StochasticGradientDescent {
    /// Learning speed, as the bit pattern of a double.
    pub eta: u64,
    /// Length of batch used for stochastic gradient descent.
    pub subsample_size: usize,
}

impl StochasticGradientDescent {
    pub fn new(eta: u64, subsample_size: usize) -> (t: StochasticGradientDescent)
        ensures
            t.eta == eta,
            t.subsample_size == subsample_size,
    {
        StochasticGradientDescent { eta, subsample_size }
    }

    /// One training call: draws exactly `floor(remaining / subsample_size)`
    /// full batches from the source in turn (a trailing partial batch is
    /// dropped, never processed short) and applies each batch's averaged
    /// update to the network. A pair whose lengths do not fit the
    /// configuration aborts its whole batch with no partial update and
    /// ends the call with `DimensionMismatch`; the updates of the batches
    /// before it stand.
    pub fn train_inner<A: ActivationFunction, D: DataSource>(
        &self,
        net: &mut Network<A>,
        data: &mut D,
    ) -> (r: Result<(), NetworkError>)
        requires
            old(net).wf(),
            old(net)@.config.len() >= 2,
            self.subsample_size >= 1,
        ensures
            final(net).wf(),
            final(net)@.config == old(net)@.config,
            ({
                let batches = spec_batches(old(data).stream(), self.subsample_size);
                match r {
                    Ok(()) => {
                        &&& forall|k: int|
                            0 <= k < batches.len() ==> batch_ok(old(net)@, #[trigger] batches[k])
                        &&& final(net)@ == spec_apply_prefix(
                            old(net)@,
                            act_of::<A>(),
                            deriv_of::<A>(),
                            batches,
                            self.eta,
                            self.subsample_size,
                            batches.len(),
                        )
                        &&& final(data).stream() == old(data).stream().skip(
                            batches.len() * self.subsample_size,
                        )
                    },
                    Err(e) => {
                        &&& e == NetworkError::DimensionMismatch
                        &&& exists|k: int|
                            0 <= k < batches.len() && !batch_ok(old(net)@, #[trigger] batches[k])
                                && (forall|q: int|
                                0 <= q < k ==> batch_ok(old(net)@, #[trigger] batches[q]))
                                && final(net)@ == spec_apply_prefix(
                                old(net)@,
                                act_of::<A>(),
                                deriv_of::<A>(),
                                batches,
                                self.eta,
                                self.subsample_size,
                                k as nat,
                            ) && final(data).stream() == old(data).stream().skip(
                                (k + 1) * self.subsample_size,
                            )
                    },
                }
            }),
    {
        let ghost m0 = old(net)@;
        let ghost actf = act_of::<A>();
        let ghost derivf = deriv_of::<A>();
        let ghost stream0 = old(data).stream();
        let ss: usize = self.subsample_size;
        let ghost batches = spec_batches(stream0, ss);
        let total: usize = data.len();
        let n_batches: usize = total / ss;
        let mut b: usize = 0;
        while b < n_batches
            invariant
                net.wf(),
                net@.config == m0.config,
                m0 == old(net)@,
                stream0 == old(data).stream(),
                model_wf(m0),
                m0.config.len() >= 2,
                actf == act_of::<A>(),
                derivf == deriv_of::<A>(),
                ss == self.subsample_size,
                ss >= 1,
                batches == spec_batches(stream0, ss),
                total == stream0.len(),
                n_batches == total as int / ss as int,
                n_batches as int == batches.len(),
                b <= n_batches,
                net@ == spec_apply_prefix(m0, actf, derivf, batches, self.eta, ss, b as nat),
                forall|q: int| 0 <= q < b ==> batch_ok(m0, #[trigger] batches[q]),
                data.stream() == stream0.skip(b * ss),
            decreases n_batches - b,
        {
            let ghost mb = net@;
            // Pull one full batch from the source.
            let mut batch: Vec<(Vector, Vector)> = Vec::new();
            let mut j: usize = 0;
            while j < ss
                invariant
                    ss >= 1,
                    b < n_batches,
                    batches == spec_batches(stream0, ss),
                    total == stream0.len(),
                    n_batches == total as int / ss as int,
                    n_batches as int == batches.len(),
                    j <= ss,
                    batch@.len() == j,
                    pair_views(batch@) == batches[b as int].take(j as int),
                    data.stream() == stream0.skip(b * ss + j),
                decreases ss - j,
            {
                proof {
                    vstd::arithmetic::div_mod::lemma_fundamental_div_mod(total as int, ss as int);
                    vstd::arithmetic::div_mod::lemma_mod_bound(total as int, ss as int);
                    vstd::arithmetic::mul::lemma_mul_inequality(
                        b as int + 1,
                        n_batches as int,
                        ss as int,
                    );
                    vstd::arithmetic::mul::lemma_mul_is_commutative(n_batches as int, ss as int);
                    vstd::arithmetic::mul::lemma_mul_is_distributive_add_other_way(
                        ss as int,
                        b as int,
                        1,
                    );
                    assert(n_batches as int * ss as int <= total as int);
                    assert((b as int + 1) * ss as int == b as int * ss as int + ss as int);
                    assert(b * ss + j < total);
                    assert(data.stream().len() == total - (b * ss + j));
                }
                let p = match data.next() {
                    Some(p) => p,
                    None => {
                        proof {
                            assert(false);
                        }
                        (Vector::new(0), Vector::new(0))
                    },
                };
                batch.push(p);
                j += 1;
                proof {
                    assert(data.stream() =~= stream0.skip(b * ss + j));
                    assert(batches[b as int] =~= stream0.subrange(
                        b as int * ss as int,
                        (b as int + 1) * ss as int,
                    ));
                    assert(pair_views(batch@) =~= batches[b as int].take(j as int));
                }
            }
            proof {
                vstd::arithmetic::div_mod::lemma_fundamental_div_mod(total as int, ss as int);
                vstd::arithmetic::div_mod::lemma_mod_bound(total as int, ss as int);
                vstd::arithmetic::mul::lemma_mul_inequality(
                    b as int + 1,
                    n_batches as int,
                    ss as int,
                );
                vstd::arithmetic::mul::lemma_mul_is_commutative(n_batches as int, ss as int);
                vstd::arithmetic::mul::lemma_mul_is_distributive_add_other_way(
                    ss as int,
                    b as int,
                    1,
                );
                assert((b as int + 1) * ss as int == b as int * ss as int + ss as int);
                assert((b as int + 1) * ss as int <= total as int);
                assert(batches[b as int].len() == ss);
                assert(pair_views(batch@) =~= batches[b as int]);
                assert(data.stream() == stream0.skip((b + 1) * ss));
            }
            // Validate every pair's lengths before touching anything.
            let s0: usize = net.configuration[0];
            let sl: usize = net.configuration[net.configuration.len() - 1];
            let mut v: usize = 0;
            while v < ss
                invariant
                    net.wf(),
                    net@.config == m0.config,
                    m0 == old(net)@,
                    stream0 == old(data).stream(),
                    model_wf(m0),
                    m0.config.len() >= 2,
                    actf == act_of::<A>(),
                    derivf == deriv_of::<A>(),
                    ss == self.subsample_size,
                    ss >= 1,
                    batches == spec_batches(stream0, ss),
                    total == stream0.len(),
                    n_batches == total as int / ss as int,
                    n_batches as int == batches.len(),
                    b < n_batches,
                    net@ == spec_apply_prefix(m0, actf, derivf, batches, self.eta, ss, b as nat),
                    forall|q: int| 0 <= q < b ==> batch_ok(m0, #[trigger] batches[q]),
                    data.stream() == stream0.skip((b + 1) * ss),
                    s0 == m0.config[0],
                    sl == m0.config[m0.config.len() - 1],
                    batch@.len() == ss,
                    pair_views(batch@) == batches[b as int],
                    v <= ss,
                    forall|q: int| 0 <= q < v ==> sample_ok(m0, #[trigger] batches[b as int][q]),
                decreases ss - v,
            {
                let p = &batch[v];
                if p.0.len() != s0 || p.1.len() != sl {
                    proof {
                        assert(batches[b as int][v as int] == pair_views(batch@)[v as int]);
                        assert(!sample_ok(m0, batches[b as int][v as int]));
                        assert(!batch_ok(m0, batches[b as int]));
                        let bi = b as int;
                        assert(0 <= bi && bi < batches.len() && !batch_ok(
                            m0,
                            batches[bi],
                        ) && (forall|q: int|
                            0 <= q < bi ==> batch_ok(m0, #[trigger] batches[q])) && net@
                            == spec_apply_prefix(
                            m0,
                            actf,
                            derivf,
                            batches,
                            self.eta,
                            ss,
                            bi as nat,
                        ) && data.stream() == stream0.skip((bi + 1) * ss));
                    }
                    return Err(NetworkError::DimensionMismatch);
                }
                v += 1;
            }
            proof {
                assert(batch_ok(m0, batches[b as int]));
            }
            // Backpropagate every pair of the batch and sum the gradients.
            let mut acc_nb = zero_nb(net);
            let mut acc_nw = zero_nw(net);
            proof {
                assert(seq_views(acc_nb@) == spec_batch_nb(
                    mb,
                    actf,
                    derivf,
                    pair_views(batch@),
                    0nat,
                ));
                assert(seq2_views(acc_nw@) == spec_batch_nw(
                    mb,
                    actf,
                    derivf,
                    pair_views(batch@),
                    0nat,
                ));
                lemma_batch_nb_shape(mb, actf, derivf, pair_views(batch@), 0nat);
                lemma_batch_nw_shape(mb, actf, derivf, pair_views(batch@), 0nat);
                assert forall|l2: int| 0 <= l2 < acc_nb@.len() implies (
                #[trigger] acc_nb@[l2])@.len() == m0.config[l2 + 1] by {
                    assert(acc_nb@[l2]@ == seq_views(acc_nb@)[l2]);
                }
                assert forall|l2: int| 0 <= l2 < acc_nw@.len() implies (
                #[trigger] acc_nw@[l2])@.len() == m0.config[l2 + 1] by {
                    assert(seq_views(acc_nw@[l2]@) == seq2_views(acc_nw@)[l2]);
                }
                assert forall|l2: int, j2: int|
                    0 <= l2 < acc_nw@.len() && 0 <= j2 < acc_nw@[l2]@.len() implies (
                #[trigger] acc_nw@[l2]@[j2])@.len() == m0.config[l2] by {
                    assert(seq_views(acc_nw@[l2]@) == seq2_views(acc_nw@)[l2]);
                    assert(acc_nw@[l2]@[j2]@ == seq_views(acc_nw@[l2]@)[j2]);
                }
            }
            let mut t: usize = 0;
            while t < ss
                invariant
                    net.wf(),
                    net@.config == m0.config,
                    mb == net@,
                    model_wf(m0),
                    m0.config.len() >= 2,
                    actf == act_of::<A>(),
                    derivf == deriv_of::<A>(),
                    ss >= 1,
                    batch@.len() == ss,
                    b < n_batches,
                    n_batches as int == batches.len(),
                    pair_views(batch@) == batches[b as int],
                    batch_ok(m0, batches[b as int]),
                    t <= ss,
                    seq_views(acc_nb@) == spec_batch_nb(
                        mb,
                        actf,
                        derivf,
                        pair_views(batch@),
                        t as nat,
                    ),
                    seq2_views(acc_nw@) == spec_batch_nw(
                        mb,
                        actf,
                        derivf,
                        pair_views(batch@),
                        t as nat,
                    ),
                    acc_nb@.len() == m0.config.len() - 1,
                    forall|l2: int|
                        0 <= l2 < acc_nb@.len() ==> (#[trigger] acc_nb@[l2])@.len() == m0.config[l2
                            + 1],
                    acc_nw@.len() == m0.config.len() - 1,
                    forall|l2: int|
                        0 <= l2 < acc_nw@.len() ==> (#[trigger] acc_nw@[l2])@.len() == m0.config[l2
                            + 1],
                    forall|l2: int, j2: int|
                        0 <= l2 < acc_nw@.len() && 0 <= j2 < acc_nw@[l2]@.len() ==> (
                        #[trigger] acc_nw@[l2]@[j2])@.len() == m0.config[l2],
                decreases ss - t,
            {
                let p = &batch[t];
                proof {
                    assert(sample_ok(m0, batches[b as int][t as int]));
                    assert(pair_views(batch@)[t as int] == (p.0@, p.1@));
                }
                let g = backprop_core(net, &p.0, &p.1);
                proof {
                    assert(g.0@.len() == seq_views(g.0@).len());
                    assert(g.1@.len() == seq2_views(g.1@).len());
                    assert forall|l2: int| 0 <= l2 < g.0@.len() implies (#[trigger] g.0@[l2])@.len()
                        == m0.config[l2 + 1] by {
                        lemma_delta_rev_len(
                            mb,
                            actf,
                            derivf,
                            p.0@,
                            p.1@,
                            (mb.config.len() - 2 - l2) as nat,
                        );
                        assert(seq_views(g.0@)[l2] == spec_delta(
                            mb,
                            actf,
                            derivf,
                            p.0@,
                            p.1@,
                            (l2 + 1) as nat,
                        ));
                    }
                    assert forall|l2: int| 0 <= l2 < g.1@.len() implies (#[trigger] g.1@[l2])@.len()
                        == m0.config[l2 + 1] by {
                        lemma_delta_rev_len(
                            mb,
                            actf,
                            derivf,
                            p.0@,
                            p.1@,
                            (mb.config.len() - 2 - l2) as nat,
                        );
                        assert(seq2_views(g.1@)[l2] == spec_nw_layer(
                            mb,
                            actf,
                            derivf,
                            p.0@,
                            p.1@,
                            (l2 + 1) as nat,
                        ));
                    }
                    assert forall|l2: int, j2: int|
                        0 <= l2 < g.1@.len() && 0 <= j2 < g.1@[l2]@.len() implies (
                    #[trigger] g.1@[l2]@[j2])@.len() == m0.config[l2] by {
                        lemma_acts_len(mb, actf, p.0@, l2 as nat);
                        assert(seq2_views(g.1@)[l2] == spec_nw_layer(
                            mb,
                            actf,
                            derivf,
                            p.0@,
                            p.1@,
                            (l2 + 1) as nat,
                        ));
                        assert(seq2_views(g.1@)[l2][j2] == seq_views(g.1@[l2]@)[j2]);
                    }
                }
                let ghost prev_nb = seq_views(acc_nb@);
                let ghost prev_nw = seq2_views(acc_nw@);
                acc_nb = add_nb(acc_nb, g.0);
                acc_nw = add_nw(acc_nw, g.1);
                t += 1;
                proof {
                    assert(seq_views(acc_nb@) == seq2_add(
                        prev_nb,
                        spec_nabla_b(mb, actf, derivf, p.0@, p.1@),
                    ));
                    assert(spec_batch_nb(mb, actf, derivf, pair_views(batch@), t as nat)
                        == seq2_add(
                        spec_batch_nb(mb, actf, derivf, pair_views(batch@), (t - 1) as nat),
                        spec_nabla_b(
                            mb,
                            actf,
                            derivf,
                            pair_views(batch@)[t - 1].0,
                            pair_views(batch@)[t - 1].1,
                        ),
                    ));
                    assert(seq2_views(acc_nw@) == seq3_add(
                        prev_nw,
                        spec_nabla_w(mb, actf, derivf, p.0@, p.1@),
                    ));
                    lemma_batch_nb_shape(mb, actf, derivf, pair_views(batch@), t as nat);
                    lemma_batch_nw_shape(mb, actf, derivf, pair_views(batch@), t as nat);
                    assert forall|l2: int| 0 <= l2 < acc_nb@.len() implies (
                    #[trigger] acc_nb@[l2])@.len() == m0.config[l2 + 1] by {
                        assert(acc_nb@[l2]@ == seq_views(acc_nb@)[l2]);
                    }
                    assert forall|l2: int| 0 <= l2 < acc_nw@.len() implies (
                    #[trigger] acc_nw@[l2])@.len() == m0.config[l2 + 1] by {
                        assert(seq_views(acc_nw@[l2]@) == seq2_views(acc_nw@)[l2]);
                    }
                    assert forall|l2: int, j2: int|
                        0 <= l2 < acc_nw@.len() && 0 <= j2 < acc_nw@[l2]@.len() implies (
                    #[trigger] acc_nw@[l2]@[j2])@.len() == m0.config[l2] by {
                        assert(seq_views(acc_nw@[l2]@) == seq2_views(acc_nw@)[l2]);
                        assert(acc_nw@[l2]@[j2]@ == seq_views(acc_nw@[l2]@)[j2]);
                    }
                }
            }
            // Apply the averaged update, all at once.
            apply_update(net, acc_nb, acc_nw, self.eta, ss);
            proof {
                assert(batches[b as int].len() == ss);
                assert(net@ == spec_apply_batch(mb, actf, derivf, batches[b as int], self.eta, ss));
                assert(net@ == spec_apply_prefix(
                    m0,
                    actf,
                    derivf,
                    batches,
                    self.eta,
                    ss,
                    (b + 1) as nat,
                ));
            }
            b += 1;
        }
        Ok(())
    }
}

/// A training strategy that consumes a data source and updates a network
/// in place.
pub trait Trainer: Sized {
    /// Whether the hyperparameters admit a training call.
    spec fn valid(&self) -> bool;

    fn train<A: ActivationFunction, D: DataSource>(
        &mut self,
        net: &mut Network<A>,
        data: &mut D,
    ) -> (r: Result<(), NetworkError>)
        requires
            old(self).valid(),
            old(net).wf(),
            old(net)@.config.len() >= 2,
        ensures
            final(net).wf(),
            final(net)@.config == old(net)@.config,
    ;
}

impl Trainer for StochasticGradientDescent {
    /// The batch size must be positive.
    open spec fn valid(&self) -> bool {
        self.subsample_size >= 1
    }

    /// Forwards to `train_inner` and carries its whole contract: the
    /// hyperparameters are untouched, and the network and the source end
    /// exactly as the batch-by-batch description says.
    fn train<A: ActivationFunction, D: DataSource>(
        &mut self,
        net: &mut Network<A>,
        data: &mut D,
    ) -> (r: Result<(), NetworkError>)
        ensures
            *final(self) == *old(self),
            ({
                let batches = spec_batches(old(data).stream(), old(self).subsample_size);
                match r {
                    Ok(()) => {
                        &&& forall|k: int|
                            0 <= k < batches.len() ==> batch_ok(old(net)@, #[trigger] batches[k])
                        &&& final(net)@ == spec_apply_prefix(
                            old(net)@,
                            act_of::<A>(),
                            deriv_of::<A>(),
                            batches,
                            old(self).eta,
                            old(self).subsample_size,
                            batches.len(),
                        )
                        &&& final(data).stream() == old(data).stream().skip(
                            batches.len() * old(self).subsample_size,
                        )
                    },
                    Err(e) => {
                        &&& e == NetworkError::DimensionMismatch
                        &&& exists|k: int|
                            0 <= k < batches.len() && !batch_ok(old(net)@, #[trigger] batches[k])
                                && (forall|q: int|
                                0 <= q < k ==> batch_ok(old(net)@, #[trigger] batches[q]))
                                && final(net)@ == spec_apply_prefix(
                                old(net)@,
                                act_of::<A>(),
                                deriv_of::<A>(),
                                batches,
                                old(self).eta,
                                old(self).subsample_size,
                                k as nat,
                            ) && final(data).stream() == old(data).stream().skip(
                                (k + 1) * old(self).subsample_size,
                            )
                    },
                }
            }),
    {
        self.train_inner(net, data)
    }
}

} // verus!
