pub mod activation;
pub mod idx;
pub mod scalar;
pub mod source;
pub mod train;
pub mod vector;

use vstd::prelude::*;
use crate::activation::{ActivationFunction, act_of};
use crate::vector::{Vector, spec_dot};
use crate::scalar::add_bits;

verus! {

/// What can go wrong in the library's operations. A vector-length mismatch
/// anywhere gives `DimensionMismatch`; feeding into a layer index that
/// names no weight layer gives `InvalidLayer`.
#[derive(Clone, Copy, Debug, PartialEq, Eq, Structural)]
pub enum NetworkError {
    DimensionMismatch,
    InvalidLayer,
}

/// Mathematical model of a network: the layer sizes, and per weight layer
/// `l` (0-based; weight layer `l` feeds layer `l + 1`) a bias vector of
/// length `config[l + 1]` and one weight row per neuron, each of length
/// `config[l]`.
pub ghost struct NetworkModel {
    pub config: Seq<usize>,
    pub biases: Seq<Seq<u64>>,
    pub weights: Seq<Seq<Seq<u64>>>,
}

pub open spec fn model_wf(m: NetworkModel) -> bool {
    &&& m.config.len() >= 1
    &&& forall|i: int| 0 <= i < m.config.len() ==> #[trigger] m.config[i] >= 1
    &&& m.biases.len() == m.config.len() - 1
    &&& m.weights.len() == m.config.len() - 1
    &&& forall|l: int| 0 <= l < m.biases.len() ==> #[trigger] m.biases[l].len() == m.config[l + 1]
    &&& forall|l: int| 0 <= l < m.weights.len() ==> #[trigger] m.weights[l].len() == m.config[
        l + 1
    ]
    &&& forall|l: int, j: int|
        0 <= l < m.weights.len() && 0 <= j < m.weights[l].len() ==> (
        #[trigger] m.weights[l][j]).len() == m.config[l]
}

/// The views of a sequence of vectors.
pub open spec fn seq_views(s: Seq<Vector>) -> Seq<Seq<u64>> {
    Seq::new(s.len(), |i: int| s[i]@)
}

/// The views of a sequence of rows of vectors.
pub open spec fn seq2_views(s: Seq<Vec<Vector>>) -> Seq<Seq<Seq<u64>>> {
    Seq::new(s.len(), |i: int| seq_views(s[i]@))
}

/// The pre-activations of one layer: for each neuron `j`, the dot product
/// of its weight row with the layer's input, plus its bias.
pub open spec fn spec_layer_z(w: Seq<Seq<u64>>, b: Seq<u64>, input: Seq<u64>) -> Seq<u64> {
    Seq::new(w.len(), |j: int| add_bits(spec_dot(w[j], input), b[j]))
}

/// An activation map applied elementwise.
pub open spec fn spec_map_act(act: spec_fn(u64) -> u64, z: Seq<u64>) -> Seq<u64> {
    Seq::new(z.len(), |i: int| act(z[i]))
}

/// The activation vector of layer `l` on the given input; layer 0 is the
/// input itself.
pub open spec fn spec_acts(
    m: NetworkModel,
    act: spec_fn(u64) -> u64,
    input: Seq<u64>,
    l: nat,
) -> Seq<u64>
    decreases l,
{
    if l == 0 {
        input
    } else {
        spec_map_act(
            act,
            spec_layer_z(m.weights[l - 1], m.biases[l - 1], spec_acts(m, act, input, (l - 1) as nat)),
        )
    }
}

/// The pre-activation vector of layer `l >= 1` on the given input.
pub open spec fn spec_z(m: NetworkModel, act: spec_fn(u64) -> u64, input: Seq<u64>, l: nat) -> Seq<
    u64,
> {
    spec_layer_z(m.weights[l - 1], m.biases[l - 1], spec_acts(m, act, input, (l - 1) as nat))
}

/// Whole-network inference: the activation of the last layer.
pub open spec fn spec_feed(m: NetworkModel, act: spec_fn(u64) -> u64, input: Seq<u64>) -> Seq<u64> {
    spec_acts(m, act, input, (m.config.len() - 1) as nat)
}

pub proof fn lemma_acts_len(m: NetworkModel, act: spec_fn(u64) -> u64, input: Seq<u64>, l: nat)
    requires
        model_wf(m),
        l < m.config.len(),
        input.len() == m.config[0],
    ensures
        spec_acts(m, act, input, l).len() == m.config[l as int],
    decreases l,
{
    if l > 0 {
        lemma_acts_len(m, act, input, (l - 1) as nat);
    }
}

/// A feedforward network: an owned configuration `[s0, ..., sL]`, and per
/// weight layer a bias vector and weight rows. Created with zero-valued
/// weights and biases; mutated only by a trainer, which holds the network
/// exclusively (`&mut`) for the whole training call, so inference never
/// overlaps an update.
pub struct Network<A: ActivationFunction> {
    activation_func: A,
    bias_matrix: Vec<Vector>,
    pub configuration: Vec<usize>,
    weight_matrix: Vec<Vec<Vector>>,
}

impl<A: ActivationFunction> View for Network<A> {
    type V = NetworkModel;

    closed spec fn view(&self) -> NetworkModel {
        NetworkModel {
            config: self.configuration@,
            biases: seq_views(self.bias_matrix@),
            weights: seq2_views(self.weight_matrix@),
        }
    }
}

impl<A: ActivationFunction> Network<A> {
    pub open spec fn wf(&self) -> bool {
        model_wf(self@)
    }

    /// A network over the given configuration, with every weight and bias
    /// zero. Every configuration entry must be a positive size.
    pub fn new(configuration: Vec<usize>, activation_func: A) -> (n: Network<A>)
        requires
            configuration@.len() >= 1,
            forall|i: int| 0 <= i < configuration@.len() ==> #[trigger] configuration@[i] >= 1,
        ensures
            n.wf(),
            n@.config == configuration@,
            forall|l: int, j: int|
                0 <= l < n@.biases.len() && 0 <= j < n@.biases[l].len() ==> #[trigger] n@.biases[l][j]
                    == 0u64,
            forall|l: int, j: int, i: int|
                0 <= l < n@.weights.len() && 0 <= j < n@.weights[l].len() && 0 <= i
                    < n@.weights[l][j].len() ==> #[trigger] n@.weights[l][j][i] == 0u64,
    {
        let n_layers: usize = configuration.len();
        let mut bias_matrix: Vec<Vector> = Vec::new();
        let mut weight_matrix: Vec<Vec<Vector>> = Vec::new();
        let mut l: usize = 1;
        while l < n_layers
            invariant
                1 <= l <= n_layers,
                n_layers == configuration@.len(),
                forall|i: int| 0 <= i < configuration@.len() ==> #[trigger] configuration@[i] >= 1,
                bias_matrix@.len() == l - 1,
                weight_matrix@.len() == l - 1,
                forall|k: int|
                    0 <= k < l - 1 ==> (#[trigger] bias_matrix@[k])@.len() == configuration@[k + 1],
                forall|k: int, j: int|
                    0 <= k < l - 1 && 0 <= j < bias_matrix@[k]@.len() ==> (#[trigger] bias_matrix@[
                        k
                    ]@[j]) == 0u64,
                forall|k: int|
                    0 <= k < l - 1 ==> (#[trigger] weight_matrix@[k])@.len() == configuration@[k
                        + 1],
                forall|k: int, j: int|
                    0 <= k < l - 1 && 0 <= j < weight_matrix@[k]@.len() ==> (
                    #[trigger] weight_matrix@[k]@[j])@.len() == configuration@[k],
                forall|k: int, j: int, i: int|
                    0 <= k < l - 1 && 0 <= j < weight_matrix@[k]@.len() && 0 <= i
                        < weight_matrix@[k]@[j]@.len() ==> (#[trigger] weight_matrix@[k]@[j]@[i])
                        == 0u64,
            decreases n_layers - l,
        {
            let neurons: usize = configuration[l];
            let inputs: usize = configuration[l - 1];
            bias_matrix.push(Vector::new(neurons));
            let mut rows: Vec<Vector> = Vec::new();
            let mut j: usize = 0;
            while j < neurons
                invariant
                    j <= neurons,
                    rows@.len() == j,
                    forall|q: int| 0 <= q < j ==> (#[trigger] rows@[q])@.len() == inputs,
                    forall|q: int, i: int|
                        0 <= q < j && 0 <= i < rows@[q]@.len() ==> (#[trigger] rows@[q]@[i])
                            == 0u64,
                decreases neurons - j,
            {
                rows.push(Vector::new(inputs));
                j += 1;
            }
            weight_matrix.push(rows);
            l += 1;
        }
        let n = Network { activation_func, bias_matrix, configuration, weight_matrix };
        proof {
            assert forall|i: int| 0 <= i < n@.config.len() implies #[trigger] n@.config[i]
                >= 1 by {}
        }
        n
    }

    /// Reads one weight: row `j` of the weight layer feeding `layer`, at
    /// input position `i`.
    pub fn weight(&self, layer: usize, j: usize, i: usize) -> (r: u64)
        requires
            self.wf(),
            1 <= layer < self@.config.len(),
            j < self@.config[layer as int],
            i < self@.config[layer - 1],
        ensures
            r == self@.weights[layer - 1][j as int][i as int],
    {
        proof {
            assert(self@.weights[layer - 1] == seq_views(self.weight_matrix@[layer - 1]@));
            assert(self@.weights[layer - 1][j as int] == self.weight_matrix@[layer - 1]@[j as int]@);
        }
        self.weight_matrix[layer - 1][j].inner_ref()[i]
    }

    /// Reads one bias of the given layer.
    pub fn bias(&self, layer: usize, j: usize) -> (r: u64)
        requires
            self.wf(),
            1 <= layer < self@.config.len(),
            j < self@.config[layer as int],
        ensures
            r == self@.biases[layer - 1][j as int],
    {
        proof {
            assert(self@.biases[layer - 1] == self.bias_matrix@[layer - 1]@);
        }
        self.bias_matrix[layer - 1].inner_ref()[j]
    }

    /// Replaces all biases and weights at once; the new matrices must fit
    /// the configuration.
    pub fn set_parameters(&mut self, bias_matrix: Vec<Vector>, weight_matrix: Vec<Vec<Vector>>)
        requires
            old(self).wf(),
            model_wf(
                (NetworkModel {
                    config: old(self)@.config,
                    biases: seq_views(bias_matrix@),
                    weights: seq2_views(weight_matrix@),
                }),
            ),
        ensures
            final(self).wf(),
            final(self)@ == (NetworkModel {
                config: old(self)@.config,
                biases: seq_views(bias_matrix@),
                weights: seq2_views(weight_matrix@),
            }),
    {
        self.bias_matrix = bias_matrix;
        self.weight_matrix = weight_matrix;
    }

    pub(crate) fn activation_ref(&self) -> &A {
        &self.activation_func
    }

    /// One weight row, for walking a layer's matrix.
    pub(crate) fn weight_row(&self, l: usize, j: usize) -> (r: &Vector)
        requires
            self.wf(),
            l < self@.weights.len(),
            j < self@.weights[l as int].len(),
        ensures
            r@ == self@.weights[l as int][j as int],
    {
        &self.weight_matrix[l][j]
    }

    /// The step behind `feed_layer`, for callers that have already
    /// established that the layer index and the input length fit.
    pub(crate) fn feed_layer_core(&self, input: &Vector, layer: usize) -> (r: (Vector, Vector))
        requires
            self.wf(),
            1 <= layer < self@.config.len(),
            input@.len() == self@.config[layer - 1],
        ensures
            r.0@ == spec_layer_z(self@.weights[layer - 1], self@.biases[layer - 1], input@),
            r.1@ == spec_map_act(act_of::<A>(), r.0@),
    {
        let rows: usize = self.configuration[layer];
        let mut z: Vec<u64> = Vec::new();
        let mut j: usize = 0;
        while j < rows
            invariant
                self.wf(),
                1 <= layer < self@.config.len(),
                input@.len() == self@.config[layer - 1],
                rows == self@.config[layer as int],
                j <= rows,
                z@.len() == j,
                forall|q: int|
                    0 <= q < j ==> #[trigger] z@[q] == add_bits(
                        spec_dot(self@.weights[layer - 1][q], input@),
                        self@.biases[layer - 1][q],
                    ),
            decreases rows - j,
        {
            let row = self.weight_row(layer - 1, j);
            let d: u64 = match row.dot(input) {
                Ok(v) => v,
                Err(_) => {
                    proof {
                        assert(false);
                    }
                    0u64
                },
            };
            proof {
                assert(self@.biases[layer - 1] == self.bias_matrix@[layer - 1]@);
            }
            let b: u64 = self.bias_matrix[layer - 1].inner_ref()[j];
            z.push(crate::scalar::f_add(d, b));
            j += 1;
        }
        let z_vec = Vector::from(z);
        let a = self.activation_func.activation(&z_vec);
        proof {
            assert(z_vec@ =~= spec_layer_z(
                self@.weights[layer - 1],
                self@.biases[layer - 1],
                input@,
            ));
            assert(a@ =~= spec_map_act(act_of::<A>(), z_vec@));
        }
        (z_vec, a)
    }

    /// One layer step: for each neuron of `layer`, the dot product of its
    /// weight row with `input` plus its bias, and the activation of that.
    /// Layer 0 is the input layer and cannot be fed; a layer index past
    /// the last layer names no weight layer either.
    pub fn feed_layer(&self, input: &Vector, layer: usize) -> (r: Result<
        (Vector, Vector),
        NetworkError,
    >)
        requires
            self.wf(),
        ensures
            match r {
                Ok(za) => {
                    &&& 1 <= layer < self@.config.len()
                    &&& input@.len() == self@.config[layer - 1]
                    &&& za.0@ == spec_layer_z(
                        self@.weights[layer - 1],
                        self@.biases[layer - 1],
                        input@,
                    )
                    &&& za.1@ == spec_map_act(act_of::<A>(), za.0@)
                },
                Err(NetworkError::InvalidLayer) => !(1 <= layer < self@.config.len()),
                Err(NetworkError::DimensionMismatch) => 1 <= layer < self@.config.len()
                    && input@.len() != self@.config[layer - 1],
            },
    {
        if layer == 0 || layer >= self.configuration.len() {
            return Err(NetworkError::InvalidLayer);
        }
        if input.len() != self.configuration[layer - 1] {
            return Err(NetworkError::DimensionMismatch);
        }
        Ok(self.feed_layer_core(input, layer))
    }

    /// Whole-network inference: applies the layer step for every layer in
    /// turn, discarding the pre-activations. The input must have the
    /// configuration's first entry as its length.
    pub fn feed(&self, input: Vector) -> (r: Result<Vector, NetworkError>)
        requires
            self.wf(),
        ensures
            match r {
                Ok(out) => input@.len() == self@.config[0] && out@ == spec_feed(
                    self@,
                    act_of::<A>(),
                    input@,
                ),
                Err(e) => e == NetworkError::DimensionMismatch && input@.len()
                    != self@.config[0],
            },
    {
        let ghost input0 = input@;
        if input.len() != self.configuration[0] {
            return Err(NetworkError::DimensionMismatch);
        }
        let mut cur = input;
        let mut l: usize = 1;
        while l < self.configuration.len()
            invariant
                self.wf(),
                1 <= l <= self@.config.len(),
                input0.len() == self@.config[0],
                cur@ == spec_acts(self@, act_of::<A>(), input0, (l - 1) as nat),
            decreases self@.config.len() - l,
        {
            proof {
                lemma_acts_len(self@, act_of::<A>(), input0, (l - 1) as nat);
            }
            let za = self.feed_layer_core(&cur, l);
            cur = za.1;
            l += 1;
        }
        Ok(cur)
    }
}

} // verus!
