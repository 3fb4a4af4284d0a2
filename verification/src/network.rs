//! The feed-forward network capability behind every brain: weights are
//! stored layer by layer, neuron by neuron (bias first, then one weight
//! per input), can be flattened into a chromosome and restored from one
//! losslessly, and drive a bounded fixed-point forward pass.
//!
//! The pass clamps its inputs into `[-GENE_LIMIT, GENE_LIMIT]`, weighs
//! them in `SCALE` fixed point, and applies a clamped rectifier, so every
//! output lies in `[0, GENE_LIMIT]`.

use vstd::prelude::*;
use vstd::math::abs;
use crate::{SCALE, GENE_LIMIT};
use crate::chromosome::{Chromosome, genes_bounded};
use crate::rng::rng_range_i64;

verus! {

/// Widest layer a topology may ask for.
pub const MAX_LAYER_NEURONS: usize = 100_000_000;

#[derive(Clone, Copy, PartialEq, Eq, Structural, Debug)]
pub struct LayerTopology {
    pub neurons: usize,
}

pub struct Neuron {
    pub bias: i64,
    pub weights: Vec<i64>,
}

pub struct Layer {
    pub neurons: Vec<Neuron>,
}

pub struct Network {
    pub layers: Vec<Layer>,
}

/// The layer sizes a topology lists.
pub open spec fn topo_sizes(topo: Seq<LayerTopology>) -> Seq<int> {
    topo.map_values(|t: LayerTopology| t.neurons as int)
}

/// A usable topology: at least an input and an output layer, every layer
/// non-empty and of bounded width.
pub open spec fn topology_wf(topo: Seq<LayerTopology>) -> bool {
    &&& topo.len() >= 2
    &&& forall|i: int| 0 <= i < topo.len()
        ==> 1 <= (#[trigger] topo[i]).neurons <= MAX_LAYER_NEURONS
}

/// Number of genes a topology implies: every layer after the first holds
/// one bias and one weight per input for each of its neurons.
pub open spec fn weight_count(sizes: Seq<int>) -> int
    decreases sizes.len(),
{
    if sizes.len() < 2 {
        0
    } else {
        weight_count(sizes.drop_last()) + sizes.last() * (sizes[sizes.len() - 2] + 1)
    }
}

/// The genes of one neuron: its bias, then its input weights in order.
pub open spec fn neuron_genes(n: Neuron) -> Seq<i64> {
    seq![n.bias] + n.weights@
}

/// The genes of one layer: its neurons' genes in order.
pub open spec fn layer_genes(ns: Seq<Neuron>) -> Seq<i64>
    decreases ns.len(),
{
    if ns.len() == 0 {
        Seq::empty()
    } else {
        layer_genes(ns.drop_last()) + neuron_genes(ns.last())
    }
}

/// The genes of the whole network: its layers' genes in order.
pub open spec fn net_genes(ls: Seq<Layer>) -> Seq<i64>
    decreases ls.len(),
{
    if ls.len() == 0 {
        Seq::empty()
    } else {
        net_genes(ls.drop_last()) + layer_genes(ls.last().neurons@)
    }
}

/// Splitting off the last topology entry splits off its genes.
pub proof fn lemma_weight_count_step(sizes: Seq<int>, l: int)
    requires
        2 <= l <= sizes.len(),
    ensures
        weight_count(sizes.take(l))
            == weight_count(sizes.take(l - 1)) + sizes[l - 1] * (sizes[l - 2] + 1),
{
    assert(sizes.take(l).drop_last() =~= sizes.take(l - 1));
    assert(sizes.take(l).last() == sizes[l - 1]);
    assert(sizes.take(l)[l - 2] == sizes[l - 2]);
}

/// With positive layer sizes the gene count of a topology prefix never
/// shrinks as the prefix grows.
pub proof fn lemma_weight_count_monotone(sizes: Seq<int>, a: int, b: int)
    requires
        0 <= a <= b <= sizes.len(),
        forall|i: int| 0 <= i < sizes.len() ==> #[trigger] sizes[i] >= 1,
    ensures
        0 <= weight_count(sizes.take(a)) <= weight_count(sizes.take(b)),
    decreases a + b,
{
    if a < 2 {
        assert(weight_count(sizes.take(a)) == 0);
    }
    if b == a {
        if a >= 2 {
            lemma_weight_count_monotone(sizes, a - 1, a - 1);
            lemma_weight_count_step(sizes, a);
            assert(sizes[a - 1] * (sizes[a - 2] + 1) >= 0) by (nonlinear_arith)
                requires sizes[a - 1] >= 1 && sizes[a - 2] >= 1;
        }
    } else {
        lemma_weight_count_monotone(sizes, a, b - 1);
        if b >= 2 {
            lemma_weight_count_step(sizes, b);
            assert(sizes[b - 1] * (sizes[b - 2] + 1) >= 0) by (nonlinear_arith)
                requires sizes[b - 1] >= 1 && sizes[b - 2] >= 1;
        }
    }
}

impl Neuron {
    pub open spec fn wf(&self) -> bool {
        -GENE_LIMIT <= self.bias <= GENE_LIMIT && genes_bounded(self.weights@)
    }
}

/// Flattening well-formed neurons yields bounded genes.
pub proof fn lemma_layer_genes_bounded(ns: Seq<Neuron>)
    requires
        forall|j: int| 0 <= j < ns.len() ==> (#[trigger] ns[j]).wf(),
    ensures
        genes_bounded(layer_genes(ns)),
    decreases ns.len(),
{
    if ns.len() > 0 {
        lemma_layer_genes_bounded(ns.drop_last());
    }
}

/// Flattening a network of well-formed neurons yields bounded genes.
pub proof fn lemma_net_genes_bounded(ls: Seq<Layer>)
    requires
        forall|l: int, j: int| 0 <= l < ls.len() && 0 <= j < ls[l].neurons@.len()
            ==> (#[trigger] ls[l].neurons@[j]).wf(),
    ensures
        genes_bounded(net_genes(ls)),
    decreases ls.len(),
{
    if ls.len() > 0 {
        lemma_net_genes_bounded(ls.drop_last());
        assert(forall|j: int| 0 <= j < ls.last().neurons@.len()
            ==> (#[trigger] ls.last().neurons@[j]).wf());
        lemma_layer_genes_bounded(ls.last().neurons@);
    }
}

impl Network {
    /// The network's flat gene sequence.
    pub open spec fn genes(&self) -> Seq<i64> {
        net_genes(self.layers@)
    }

    /// The network was built for exactly this topology: one processing
    /// layer per topology window, each of the right width, each neuron
    /// weighing the full previous layer, all genes bounded.
    pub open spec fn matches_topology(&self, topo: Seq<LayerTopology>) -> bool {
        &&& self.layers@.len() == topo.len() - 1
        &&& forall|l: int| 0 <= l < self.layers@.len()
            ==> (#[trigger] self.layers@[l]).neurons@.len() == topo[l + 1].neurons
        &&& forall|l: int, j: int|
            0 <= l < self.layers@.len() && 0 <= j < self.layers@[l].neurons@.len()
            ==> {
                &&& (#[trigger] self.layers@[l].neurons@[j]).weights@.len() == topo[l].neurons
                &&& self.layers@[l].neurons@[j].wf()
            }
    }

    pub open spec fn input_len_spec(topo: Seq<LayerTopology>) -> int {
        topo[0].neurons as int
    }

    pub open spec fn output_len_spec(topo: Seq<LayerTopology>) -> int {
        topo.last().neurons as int
    }
}

/// Clamps a value into the gene range, as the forward pass does to its
/// inputs.
pub open spec fn clamp_gene_spec(x: int) -> int {
    if x < -GENE_LIMIT {
        -GENE_LIMIT as int
    } else if x > GENE_LIMIT {
        GENE_LIMIT as int
    } else {
        x
    }
}

/// The capped rectifier every neuron applies to its sum.
pub open spec fn relu_cap_spec(x: int) -> int {
    if x < 0 {
        0
    } else if x > GENE_LIMIT {
        GENE_LIMIT as int
    } else {
        x
    }
}

/// One fixed-point product `w * x / SCALE`: the magnitude is divided,
/// so the result rounds towards zero.
pub open spec fn weigh_spec(w: int, x: int) -> int {
    let m = (abs(w) * abs(x)) as int / (SCALE as int);
    if (w < 0) != (x < 0) {
        -m
    } else {
        m
    }
}

/// One neuron's bias plus its weighted sum over the first `j` inputs.
pub open spec fn neuron_sum_spec(n: Neuron, x: Seq<int>, j: int) -> int
    decreases j,
{
    if j <= 0 {
        n.bias as int
    } else {
        neuron_sum_spec(n, x, j - 1) + weigh_spec(n.weights@[j - 1] as int, x[j - 1])
    }
}

/// One neuron's output.
pub open spec fn neuron_eval_spec(n: Neuron, x: Seq<int>) -> int {
    relu_cap_spec(neuron_sum_spec(n, x, n.weights@.len() as int))
}

/// One layer's outputs, every neuron on the same inputs.
pub open spec fn layer_eval_spec(l: Layer, x: Seq<int>) -> Seq<int> {
    Seq::new(l.neurons@.len(), |j: int| neuron_eval_spec(l.neurons@[j], x))
}

/// The vector after the first `i` layers.
pub open spec fn layers_eval_spec(ls: Seq<Layer>, x: Seq<int>, i: int) -> Seq<int>
    decreases i,
{
    if i <= 0 {
        x
    } else {
        layer_eval_spec(ls[i - 1], layers_eval_spec(ls, x, i - 1))
    }
}

/// The whole forward pass: inputs clamped into the gene range, then
/// every layer in order.
pub open spec fn net_eval_spec(net: Network, inputs: Seq<int>) -> Seq<int> {
    layers_eval_spec(net.layers@, inputs.map_values(|v: int| clamp_gene_spec(v)),
        net.layers@.len() as int)
}

/// The view of a fixed-point vector as mathematical integers.
pub open spec fn ints_of(s: Seq<i64>) -> Seq<int> {
    s.map_values(|v: i64| v as int)
}

/// Clamps a value into `[lo, hi]`.
pub open spec fn clamp_spec(x: int, lo: int, hi: int) -> int {
    if x < lo {
        lo
    } else if x > hi {
        hi
    } else {
        x
    }
}

fn clamp_i64(x: i64, lo: i64, hi: i64) -> (r: i64)
    requires
        lo <= hi,
    ensures
        r == clamp_spec(x as int, lo as int, hi as int),
        lo <= r <= hi,
{
    if x < lo {
        lo
    } else if x > hi {
        hi
    } else {
        x
    }
}

/// One fixed-point product `w * x / SCALE`, both factors gene-bounded;
/// the magnitude is divided, so the result rounds towards zero.
fn weigh(w: i64, x: i64) -> (r: i64)
    requires
        -GENE_LIMIT <= w <= GENE_LIMIT,
        -GENE_LIMIT <= x <= GENE_LIMIT,
    ensures
        -64_000_000 <= r <= 64_000_000,
        r == weigh_spec(w as int, x as int),
{
    let aw: u64 = if w < 0 { (-w) as u64 } else { w as u64 };
    let ax: u64 = if x < 0 { (-x) as u64 } else { x as u64 };
    proof {
        assert(aw * ax <= 64_000_000_000_000) by (nonlinear_arith)
            requires aw <= 8_000_000 && ax <= 8_000_000;
    }
    let mag: u64 = (aw * ax) / (SCALE as u64);
    proof {
        vstd::arithmetic::div_mod::lemma_div_is_ordered(
            (aw * ax) as int, 64_000_000_000_000, SCALE as int);
    }
    assert(mag <= 64_000_000);
    proof {
        assert(aw == abs(w as int) && ax == abs(x as int));
    }
    let neg: bool = (w < 0) != (x < 0);
    if neg {
        -(mag as i64)
    } else {
        mag as i64
    }
}

impl Neuron {
    /// Weighted sum of the (clamped) inputs plus the bias, rectified and
    /// capped into `[0, GENE_LIMIT]`.
    fn eval(&self, inputs: &Vec<i64>) -> (r: i64)
        requires
            self.wf(),
            inputs@.len() == self.weights@.len(),
            inputs@.len() <= MAX_LAYER_NEURONS,
            genes_bounded(inputs@),
        ensures
            0 <= r <= GENE_LIMIT,
            r == neuron_eval_spec(*self, ints_of(inputs@)),
    {
        let mut acc: i64 = self.bias;
        let mut j: usize = 0;
        while j < self.weights.len()
            invariant
                j <= self.weights@.len(),
                self.wf(),
                inputs@.len() == self.weights@.len(),
                inputs@.len() <= MAX_LAYER_NEURONS,
                genes_bounded(inputs@),
                -GENE_LIMIT - 64_000_000 * (j as int) <= acc
                    <= GENE_LIMIT + 64_000_000 * (j as int),
                acc == neuron_sum_spec(*self, ints_of(inputs@), j as int),
            decreases self.weights@.len() - j,
        {
            let term = weigh(self.weights[j], inputs[j]);
            proof {
                assert(64_000_000 * ((j + 1) as int) == 64_000_000 * (j as int) + 64_000_000);
                assert(64_000_000 * (j as int) <= 64_000_000 * (MAX_LAYER_NEURONS as int))
                    by (nonlinear_arith)
                    requires j as int <= MAX_LAYER_NEURONS as int;
            }
            acc = acc + term;
            j = j + 1;
        }
        clamp_i64(acc, 0, GENE_LIMIT)
    }
}

impl Layer {
    /// Evaluates every neuron of the layer on the same inputs.
    fn eval(&self, inputs: &Vec<i64>) -> (r: Vec<i64>)
        requires
            forall|j: int| 0 <= j < self.neurons@.len() ==> {
                &&& (#[trigger] self.neurons@[j]).wf()
                &&& self.neurons@[j].weights@.len() == inputs@.len()
            },
            inputs@.len() <= MAX_LAYER_NEURONS,
            genes_bounded(inputs@),
        ensures
            r@.len() == self.neurons@.len(),
            forall|j: int| 0 <= j < r@.len() ==> 0 <= #[trigger] r@[j] <= GENE_LIMIT,
            ints_of(r@) == layer_eval_spec(*self, ints_of(inputs@)),
    {
        let mut out: Vec<i64> = Vec::new();
        let mut j: usize = 0;
        while j < self.neurons.len()
            invariant
                j <= self.neurons@.len(),
                out@.len() == j,
                forall|k: int| 0 <= k < self.neurons@.len() ==> {
                    &&& (#[trigger] self.neurons@[k]).wf()
                    &&& self.neurons@[k].weights@.len() == inputs@.len()
                },
                inputs@.len() <= MAX_LAYER_NEURONS,
                genes_bounded(inputs@),
                forall|k: int| 0 <= k < out@.len() ==> 0 <= #[trigger] out@[k] <= GENE_LIMIT,
                forall|k: int| 0 <= k < out@.len() ==> #[trigger] out@[k] as int
                    == neuron_eval_spec(self.neurons@[k], ints_of(inputs@)),
            decreases self.neurons@.len() - j,
        {
            let v = self.neurons[j].eval(inputs);
            out.push(v);
            j = j + 1;
        }
        proof {
            assert(ints_of(out@) =~= layer_eval_spec(*self, ints_of(inputs@)));
        }
        out
    }
}

impl Network {
    /// Runs the forward pass.  Inputs are clamped into the gene range
    /// first; every output lies in `[0, GENE_LIMIT]`.
    pub fn propagate(&self, inputs: &Vec<i64>, topo: &Vec<LayerTopology>) -> (r: Vec<i64>)
        requires
            topology_wf(topo@),
            self.matches_topology(topo@),
            inputs@.len() == Network::input_len_spec(topo@),
        ensures
            r@.len() == Network::output_len_spec(topo@),
            forall|j: int| 0 <= j < r@.len() ==> 0 <= #[trigger] r@[j] <= GENE_LIMIT,
            ints_of(r@) == net_eval_spec(*self, ints_of(inputs@)),
    {
        let ghost clamped = ints_of(inputs@).map_values(|v: int| clamp_gene_spec(v));
        let mut cur: Vec<i64> = Vec::new();
        let mut j: usize = 0;
        while j < inputs.len()
            invariant
                j <= inputs@.len(),
                cur@.len() == j,
                genes_bounded(cur@),
                clamped == ints_of(inputs@).map_values(|v: int| clamp_gene_spec(v)),
                forall|k: int| 0 <= k < j ==> #[trigger] cur@[k] as int == clamped[k],
            decreases inputs@.len() - j,
        {
            cur.push(clamp_i64(inputs[j], -GENE_LIMIT, GENE_LIMIT));
            j = j + 1;
        }
        proof {
            assert(ints_of(cur@) =~= clamped);
        }
        let mut l: usize = 0;
        while l < self.layers.len()
            invariant
                l <= self.layers@.len(),
                topology_wf(topo@),
                self.matches_topology(topo@),
                cur@.len() == topo@[l as int].neurons,
                cur@.len() <= MAX_LAYER_NEURONS,
                genes_bounded(cur@),
                l > 0 ==> forall|j: int| 0 <= j < cur@.len()
                    ==> 0 <= #[trigger] cur@[j] <= GENE_LIMIT,
                clamped == ints_of(inputs@).map_values(|v: int| clamp_gene_spec(v)),
                ints_of(cur@) == layers_eval_spec(self.layers@, clamped, l as int),
            decreases self.layers@.len() - l,
        {
            let next = self.layers[l].eval(&cur);
            cur = next;
            l = l + 1;
            proof {
                assert(1 <= topo@[l as int].neurons <= MAX_LAYER_NEURONS);
            }
        }
        cur
    }

    /// Flattens the network into its gene sequence: layer by layer,
    /// neuron by neuron, bias first.
    pub fn weights(&self) -> (r: Vec<i64>)
        ensures
            r@ == self.genes(),
    {
        let mut out: Vec<i64> = Vec::new();
        let mut l: usize = 0;
        while l < self.layers.len()
            invariant
                l <= self.layers@.len(),
                out@ == net_genes(self.layers@.take(l as int)),
            decreases self.layers@.len() - l,
        {
            let ghost out_layer_start = out@;
            let layer = &self.layers[l];
            let mut j: usize = 0;
            while j < layer.neurons.len()
                invariant
                    j <= layer.neurons@.len(),
                    layer == self.layers@[l as int],
                    out@ == out_layer_start + layer_genes(layer.neurons@.take(j as int)),
                decreases layer.neurons@.len() - j,
            {
                let neuron = &layer.neurons[j];
                let ghost out_neuron_start = out@;
                out.push(neuron.bias);
                let mut w: usize = 0;
                while w < neuron.weights.len()
                    invariant
                        w <= neuron.weights@.len(),
                        neuron == layer.neurons@[j as int],
                        out@ == out_neuron_start + seq![neuron.bias]
                            + neuron.weights@.take(w as int),
                    decreases neuron.weights@.len() - w,
                {
                    out.push(neuron.weights[w]);
                    w = w + 1;
                    proof {
                        assert(out@ =~= out_neuron_start + seq![neuron.bias]
                            + neuron.weights@.take(w as int));
                    }
                }
                j = j + 1;
                proof {
                    assert(neuron.weights@.take(neuron.weights@.len() as int)
                        =~= neuron.weights@);
                    assert(layer.neurons@.take(j as int).drop_last()
                        =~= layer.neurons@.take(j - 1));
                    assert(layer.neurons@.take(j as int).last() == layer.neurons@[j - 1]);
                    assert(out@ =~= out_layer_start
                        + layer_genes(layer.neurons@.take(j as int)));
                }
            }
            l = l + 1;
            proof {
                assert(layer.neurons@.take(layer.neurons@.len() as int) =~= layer.neurons@);
                assert(self.layers@.take(l as int).drop_last() =~= self.layers@.take(l - 1));
                assert(self.layers@.take(l as int).last() == self.layers@[l - 1]);
                assert(out@ =~= net_genes(self.layers@.take(l as int)));
            }
        }
        proof {
            assert(self.layers@.take(self.layers@.len() as int) =~= self.layers@);
        }
        out
    }

    /// Rebuilds the network the gene sequence was flattened from: the
    /// exact inverse of `weights`, defined only for a chromosome of the
    /// topology-implied length.
    pub fn from_weights(topo: &Vec<LayerTopology>, chromosome: &Chromosome) -> (r: Network)
        requires
            topology_wf(topo@),
            chromosome.wf(),
            chromosome@.len() == weight_count(topo_sizes(topo@)),
        ensures
            r.matches_topology(topo@),
            r.genes() == chromosome@,
    {
        let ghost sizes = topo_sizes(topo@);
        proof {
            assert(forall|i: int| 0 <= i < sizes.len() ==> #[trigger] sizes[i] >= 1);
        }
        let clen: usize = chromosome.len();
        let mut layers: Vec<Layer> = Vec::new();
        let mut idx: usize = 0;
        let mut l: usize = 1;
        while l < topo.len()
            invariant
                1 <= l <= topo@.len(),
                topology_wf(topo@),
                chromosome.wf(),
                chromosome@.len() == weight_count(sizes),
                clen == chromosome@.len(),
                sizes == topo_sizes(topo@),
                idx == weight_count(sizes.take(l as int)),
                idx <= clen,
                layers@.len() == l - 1,
                forall|k: int| 0 <= k < layers@.len()
                    ==> (#[trigger] layers@[k]).neurons@.len() == topo@[k + 1].neurons,
                forall|k: int, j: int|
                    0 <= k < layers@.len() && 0 <= j < layers@[k].neurons@.len()
                    ==> {
                        &&& (#[trigger] layers@[k].neurons@[j]).weights@.len()
                            == topo@[k].neurons
                        &&& layers@[k].neurons@[j].wf()
                    },
                net_genes(layers@) == chromosome@.take(idx as int),
            decreases topo@.len() - l,
        {
            let in_size: usize = topo[l - 1].neurons;
            let out_size: usize = topo[l].neurons;
            proof {
                lemma_weight_count_step(sizes, l as int + 1);
                lemma_weight_count_monotone(sizes, l as int + 1, sizes.len() as int);
                assert(sizes.take(sizes.len() as int) =~= sizes);
                assert(idx + out_size * (in_size + 1) <= clen);
            }
            let ghost layer_start = idx as int;
            let mut neurons: Vec<Neuron> = Vec::new();
            let mut j: usize = 0;
            while j < out_size
                invariant
                    j <= out_size,
                    chromosome.wf(),
                    clen == chromosome@.len(),
                    idx == layer_start + j * (in_size as int + 1),
                    idx + (out_size - j) * (in_size as int + 1) <= clen,
                    0 <= layer_start <= idx,
                    neurons@.len() == j,
                    forall|k: int| 0 <= k < neurons@.len() ==> {
                        &&& (#[trigger] neurons@[k]).weights@.len() == in_size
                        &&& neurons@[k].wf()
                    },
                    layer_genes(neurons@) == chromosome@.subrange(layer_start, idx as int),
                decreases out_size - j,
            {
                proof {
                    assert((out_size - j) * (in_size as int + 1) >= in_size as int + 1)
                        by (nonlinear_arith)
                        requires j < out_size && in_size as int >= 0;
                }
                let bias = chromosome.gene(idx);
                let mut weights: Vec<i64> = Vec::new();
                let mut w: usize = 0;
                while w < in_size
                    invariant
                        w <= in_size,
                        chromosome.wf(),
                        clen == chromosome@.len(),
                        idx + 1 + in_size <= clen,
                        weights@ == chromosome@.subrange(idx as int + 1, idx as int + 1 + w),
                        genes_bounded(weights@),
                    decreases in_size - w,
                {
                    weights.push(chromosome.gene(idx + 1 + w));
                    w = w + 1;
                    proof {
                        assert(weights@ =~= chromosome@.subrange(
                            idx as int + 1, idx as int + 1 + w));
                    }
                }
                let ghost idx_old = idx as int;
                let ghost neurons_old = neurons@;
                neurons.push(Neuron { bias, weights });
                idx = idx + 1 + in_size;
                j = j + 1;
                proof {
                    assert(idx == layer_start + j * (in_size as int + 1)
                        && idx + (out_size - j) * (in_size as int + 1) <= clen)
                        by (nonlinear_arith)
                        requires
                            idx == idx_old + in_size as int + 1,
                            idx_old == layer_start + (j - 1) * (in_size as int + 1),
                            idx_old + (out_size - j + 1) * (in_size as int + 1) <= clen;
                    assert(neurons@.drop_last() =~= neurons_old);
                    assert(neuron_genes(neurons@.last())
                        =~= chromosome@.subrange(idx_old, idx as int));
                    assert(chromosome@.subrange(layer_start, idx_old)
                        + chromosome@.subrange(idx_old, idx as int)
                        =~= chromosome@.subrange(layer_start, idx as int));
                    assert(layer_genes(neurons@) =~= chromosome@.subrange(
                        layer_start, idx as int));
                }
            }
            let ghost layers_old = layers@;
            layers.push(Layer { neurons });
            l = l + 1;
            proof {
                lemma_weight_count_step(sizes, l as int);
                assert(idx == weight_count(sizes.take(l as int))) by (nonlinear_arith)
                    requires
                        idx == layer_start + out_size * (in_size as int + 1),
                        weight_count(sizes.take(l as int)) == weight_count(
                            sizes.take(l as int - 1)) + sizes[l as int - 1] * (
                            sizes[l as int - 2] + 1),
                        layer_start == weight_count(sizes.take(l as int - 1)),
                        sizes[l as int - 1] == out_size as int,
                        sizes[l as int - 2] == in_size as int;
                assert(layers@.drop_last() =~= layers_old);
                assert(chromosome@.take(layer_start)
                    + chromosome@.subrange(layer_start, idx as int)
                    =~= chromosome@.take(idx as int));
                assert(net_genes(layers@) =~= chromosome@.take(idx as int));
            }
        }
        proof {
            assert(sizes.take(sizes.len() as int) =~= sizes);
            assert(idx == clen);
            assert(chromosome@.take(idx as int) =~= chromosome@);
        }
        Network { layers }
    }

    /// Draws a fresh network for the topology, every gene uniform in
    /// `[-SCALE, SCALE]`.
    pub fn random(rng: &mut rand::rngs::StdRng, topo: &Vec<LayerTopology>) -> (r: Network)
        requires
            topology_wf(topo@),
        ensures
            r.matches_topology(topo@),
    {
        let mut layers: Vec<Layer> = Vec::new();
        let mut l: usize = 1;
        while l < topo.len()
            invariant
                1 <= l <= topo@.len(),
                topology_wf(topo@),
                layers@.len() == l - 1,
                forall|k: int| 0 <= k < layers@.len()
                    ==> (#[trigger] layers@[k]).neurons@.len() == topo@[k + 1].neurons,
                forall|k: int, j: int|
                    0 <= k < layers@.len() && 0 <= j < layers@[k].neurons@.len()
                    ==> {
                        &&& (#[trigger] layers@[k].neurons@[j]).weights@.len()
                            == topo@[k].neurons
                        &&& layers@[k].neurons@[j].wf()
                    },
            decreases topo@.len() - l,
        {
            let in_size = topo[l - 1].neurons;
            let out_size = topo[l].neurons;
            let mut neurons: Vec<Neuron> = Vec::new();
            let mut j: usize = 0;
            while j < out_size
                invariant
                    j <= out_size,
                    in_size <= MAX_LAYER_NEURONS,
                    neurons@.len() == j,
                    forall|k: int| 0 <= k < neurons@.len() ==> {
                        &&& (#[trigger] neurons@[k]).weights@.len() == in_size
                        &&& neurons@[k].wf()
                    },
                decreases out_size - j,
            {
                let bias = rng_range_i64(rng, 2 * SCALE + 1) - SCALE;
                let mut weights: Vec<i64> = Vec::new();
                let mut w: usize = 0;
                while w < in_size
                    invariant
                        w <= in_size,
                        weights@.len() == w,
                        genes_bounded(weights@),
                    decreases in_size - w,
                {
                    let g = rng_range_i64(rng, 2 * SCALE + 1) - SCALE;
                    weights.push(g);
                    w = w + 1;
                }
                neurons.push(Neuron { bias, weights });
                j = j + 1;
            }
            layers.push(Layer { neurons });
            l = l + 1;
        }
        Network { layers }
    }
}

} // verus!
