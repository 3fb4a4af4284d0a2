//! Brains: one network per agent, its input width derived from the
//! species' vision model, with two 32-neuron hidden layers and exactly
//! two outputs (speed change, heading change).

use vstd::prelude::*;
use crate::config::{SimulationConfig, IndividualConfig, Model};
use crate::network::{
    Network, Neuron, Layer, LayerTopology, topology_wf, topo_sizes, weight_count,
    layer_genes, net_genes, lemma_net_genes_bounded, lemma_weight_count_step,
    MAX_LAYER_NEURONS,
};
use crate::chromosome::Chromosome;

verus! {

pub const HIDDEN_NEURONS: usize = 32;
pub const OUTPUT_NEURONS: usize = 2;

/// The fixed layer stack every brain uses: the sensor width plus one
/// tick input, two hidden layers, two outputs.
pub open spec fn topology_spec(in_size: int) -> Seq<LayerTopology> {
    seq![
        LayerTopology { neurons: in_size as usize },
        LayerTopology { neurons: HIDDEN_NEURONS },
        LayerTopology { neurons: HIDDEN_NEURONS },
        LayerTopology { neurons: OUTPUT_NEURONS },
    ]
}

/// Gene count of the fixed stack, written out: each non-input layer
/// holds one bias and one weight per input for each neuron.
pub proof fn lemma_brain_weight_count(in_size: int)
    requires
        1 <= in_size <= MAX_LAYER_NEURONS,
    ensures
        weight_count(topo_sizes(topology_spec(in_size))) == 32 * in_size + 1154,
{
    let s = topo_sizes(topology_spec(in_size));
    assert(s.len() == 4);
    assert(s[0] == in_size && s[1] == 32 && s[2] == 32 && s[3] == 2);
    let s3 = s.drop_last();
    let s2 = s3.drop_last();
    let s1 = s2.drop_last();
    assert(s1.drop_last().len() == 0);
    assert(weight_count(s1) == 0);
    assert(weight_count(s2) == weight_count(s1) + s2.last() * (s2[0] + 1));
    assert(s2.last() * (s2[0] + 1) == 32 * (in_size + 1)) by (nonlinear_arith)
        requires s2.last() == 32 && s2[0] == in_size;
    assert(weight_count(s3) == weight_count(s2) + 32 * 33);
    assert(weight_count(s) == weight_count(s3) + 2 * 33);
}

/// Builds the fixed stack for a given sensor width.
fn make_topology(in_size: usize) -> (r: Vec<LayerTopology>)
    requires
        1 <= in_size <= MAX_LAYER_NEURONS,
    ensures
        r@ == topology_spec(in_size as int),
        topology_wf(r@),
{
    let mut topo: Vec<LayerTopology> = Vec::new();
    topo.push(LayerTopology { neurons: in_size });
    topo.push(LayerTopology { neurons: HIDDEN_NEURONS });
    topo.push(LayerTopology { neurons: HIDDEN_NEURONS });
    topo.push(LayerTopology { neurons: OUTPUT_NEURONS });
    proof {
        assert(topo@ =~= topology_spec(in_size as int));
    }
    topo
}

/// The brain capability: derive the topology from the configs, convert
/// to and from a chromosome losslessly, and drive the forward pass.
pub trait Brain: Sized {
    /// Width of the sensor vector plus the tick input.
    spec fn input_size_spec(sim_conf: SimulationConfig, in_conf: IndividualConfig) -> int;

    /// The flat gene sequence of the held network.
    spec fn genes_view(&self) -> Seq<i64>;

    /// The network matches the species topology for these configs.
    spec fn wf(&self, sim_conf: SimulationConfig, in_conf: IndividualConfig) -> bool;

    /// Every gene of the held network is bounded (implied by `wf`).
    spec fn sane(&self) -> bool;

    proof fn lemma_wf_sane(&self, sim_conf: SimulationConfig, in_conf: IndividualConfig)
        requires
            self.wf(sim_conf, in_conf),
        ensures
            self.sane(),
            self.genes_view().len() == weight_count(topo_sizes(topology_spec(
                Self::input_size_spec(sim_conf, in_conf)))),
    ;

    fn input_size(sim_conf: &SimulationConfig, in_conf: &IndividualConfig) -> (r: usize)
        requires
            sim_conf.wf(),
            in_conf.wf(),
        ensures
            r == Self::input_size_spec(*sim_conf, *in_conf),
            1 <= r <= 2_000_001,
    ;

    fn topology(sim_conf: &SimulationConfig, in_conf: &IndividualConfig) -> (r: Vec<
        LayerTopology>)
        requires
            sim_conf.wf(),
            in_conf.wf(),
        ensures
            r@ == topology_spec(Self::input_size_spec(*sim_conf, *in_conf)),
            topology_wf(r@),
    ;

    fn random(rng: &mut rand::rngs::StdRng, sim_conf: &SimulationConfig,
        in_conf: &IndividualConfig) -> (r: Self)
        requires
            sim_conf.wf(),
            in_conf.wf(),
        ensures
            r.wf(*sim_conf, *in_conf),
    ;

    fn as_chromosome(&self) -> (r: Chromosome)
        requires
            self.sane(),
        ensures
            r@ == self.genes_view(),
            r.wf(),
    ;

    fn from_chromosome(chromosome: Chromosome, sim_conf: &SimulationConfig,
        in_conf: &IndividualConfig) -> (r: Self)
        requires
            sim_conf.wf(),
            in_conf.wf(),
            chromosome.wf(),
            chromosome@.len() == weight_count(topo_sizes(topology_spec(
                Self::input_size_spec(*sim_conf, *in_conf)))),
        ensures
            r.wf(*sim_conf, *in_conf),
            r.genes_view() == chromosome@,
    ;
}

pub struct HervorBrain {
    pub nn: Network,
}

pub struct ChaserBrain {
    pub nn: Network,
}

impl Brain for HervorBrain {
    /// Hervors sense plants (3 values or one bucket vector) and chasers.
    open spec fn input_size_spec(sim_conf: SimulationConfig, in_conf: IndividualConfig) -> int {
        match in_conf.training_model {
            Model::POSITIONAL => sim_conf.nchasers * 4 + 3 + 1,
            Model::CELLULAR => 2 * in_conf.eye_cells + 1,
            Model::CLOSEST => 8int,
        }
    }

    open spec fn genes_view(&self) -> Seq<i64> {
        self.nn.genes()
    }

    open spec fn wf(&self, sim_conf: SimulationConfig, in_conf: IndividualConfig) -> bool {
        self.nn.matches_topology(topology_spec(Self::input_size_spec(sim_conf, in_conf)))
    }

    open spec fn sane(&self) -> bool {
        forall|l: int, j: int|
            0 <= l < self.nn.layers@.len() && 0 <= j < self.nn.layers@[l].neurons@.len()
            ==> (#[trigger] self.nn.layers@[l].neurons@[j]).wf()
    }

    proof fn lemma_wf_sane(&self, sim_conf: SimulationConfig, in_conf: IndividualConfig) {
        lemma_genes_len(&self.nn, topology_spec(Self::input_size_spec(sim_conf, in_conf)));
    }

    fn input_size(sim_conf: &SimulationConfig, in_conf: &IndividualConfig) -> (r: usize) {
        match in_conf.training_model {
            Model::POSITIONAL => sim_conf.nchasers * 4 + 3 + 1,
            Model::CELLULAR => 2 * in_conf.eye_cells + 1,
            Model::CLOSEST => 4 + 3 + 1,
        }
    }

    fn topology(sim_conf: &SimulationConfig, in_conf: &IndividualConfig) -> (r: Vec<
        LayerTopology>) {
        make_topology(Self::input_size(sim_conf, in_conf))
    }

    fn random(rng: &mut rand::rngs::StdRng, sim_conf: &SimulationConfig,
        in_conf: &IndividualConfig) -> (r: Self) {
        let topo = Self::topology(sim_conf, in_conf);
        HervorBrain { nn: Network::random(rng, &topo) }
    }

    fn as_chromosome(&self) -> (r: Chromosome) {
        proof {
            lemma_net_genes_bounded(self.nn.layers@);
        }
        Chromosome::new(self.nn.weights())
    }

    fn from_chromosome(chromosome: Chromosome, sim_conf: &SimulationConfig,
        in_conf: &IndividualConfig) -> (r: Self) {
        let topo = Self::topology(sim_conf, in_conf);
        HervorBrain { nn: Network::from_weights(&topo, &chromosome) }
    }
}

impl Brain for ChaserBrain {
    /// Chasers sense hervors only.
    open spec fn input_size_spec(sim_conf: SimulationConfig, in_conf: IndividualConfig) -> int {
        match in_conf.training_model {
            Model::POSITIONAL => sim_conf.nhervors * 4 + 1,
            Model::CELLULAR => in_conf.eye_cells + 1,
            Model::CLOSEST => 5int,
        }
    }

    open spec fn genes_view(&self) -> Seq<i64> {
        self.nn.genes()
    }

    open spec fn wf(&self, sim_conf: SimulationConfig, in_conf: IndividualConfig) -> bool {
        self.nn.matches_topology(topology_spec(Self::input_size_spec(sim_conf, in_conf)))
    }

    open spec fn sane(&self) -> bool {
        forall|l: int, j: int|
            0 <= l < self.nn.layers@.len() && 0 <= j < self.nn.layers@[l].neurons@.len()
            ==> (#[trigger] self.nn.layers@[l].neurons@[j]).wf()
    }

    proof fn lemma_wf_sane(&self, sim_conf: SimulationConfig, in_conf: IndividualConfig) {
        lemma_genes_len(&self.nn, topology_spec(Self::input_size_spec(sim_conf, in_conf)));
    }

    fn input_size(sim_conf: &SimulationConfig, in_conf: &IndividualConfig) -> (r: usize) {
        match in_conf.training_model {
            Model::POSITIONAL => sim_conf.nhervors * 4 + 1,
            Model::CELLULAR => in_conf.eye_cells + 1,
            Model::CLOSEST => 4 + 1,
        }
    }

    fn topology(sim_conf: &SimulationConfig, in_conf: &IndividualConfig) -> (r: Vec<
        LayerTopology>) {
        make_topology(Self::input_size(sim_conf, in_conf))
    }

    fn random(rng: &mut rand::rngs::StdRng, sim_conf: &SimulationConfig,
        in_conf: &IndividualConfig) -> (r: Self) {
        let topo = Self::topology(sim_conf, in_conf);
        ChaserBrain { nn: Network::random(rng, &topo) }
    }

    fn as_chromosome(&self) -> (r: Chromosome) {
        proof {
            lemma_net_genes_bounded(self.nn.layers@);
        }
        Chromosome::new(self.nn.weights())
    }

    fn from_chromosome(chromosome: Chromosome, sim_conf: &SimulationConfig,
        in_conf: &IndividualConfig) -> (r: Self) {
        let topo = Self::topology(sim_conf, in_conf);
        ChaserBrain { nn: Network::from_weights(&topo, &chromosome) }
    }
}

/// A network matching a topology has exactly the topology-implied number
/// of genes.
pub proof fn lemma_genes_len(net: &Network, topo: Seq<LayerTopology>)
    requires
        net.matches_topology(topo),
        topo.len() >= 1,
    ensures
        net.genes().len() == weight_count(topo_sizes(topo)),
{
    lemma_genes_len_rec(net.layers@, topo, net.layers@.len() as int);
    assert(net.layers@.take(net.layers@.len() as int) =~= net.layers@);
    assert(topo_sizes(topo).take(net.layers@.len() as int + 1) =~= topo_sizes(topo));
}

proof fn lemma_layer_genes_len(ns: Seq<Neuron>, in_size: int)
    requires
        forall|j: int| 0 <= j < ns.len() ==> (#[trigger] ns[j]).weights@.len() == in_size,
        in_size >= 0,
    ensures
        layer_genes(ns).len() == ns.len() * (in_size + 1),
    decreases ns.len(),
{
    if ns.len() == 0 {
    } else {
        lemma_layer_genes_len(ns.drop_last(), in_size);
        assert(ns.len() * (in_size + 1) == (ns.len() - 1) * (in_size + 1) + (in_size + 1))
            by (nonlinear_arith);
    }
}

/// Gene count of the first `l` processing layers of a matching network.
proof fn lemma_genes_len_rec(layers: Seq<Layer>, topo: Seq<LayerTopology>, l: int)
    requires
        0 <= l <= layers.len(),
        layers.len() == topo.len() - 1,
        forall|k: int| 0 <= k < layers.len()
            ==> (#[trigger] layers[k]).neurons@.len() == topo[k + 1].neurons,
        forall|k: int, j: int|
            0 <= k < layers.len() && 0 <= j < layers[k].neurons@.len()
            ==> (#[trigger] layers[k].neurons@[j]).weights@.len() == topo[k].neurons,
    ensures
        net_genes(layers.take(l)).len() == weight_count(topo_sizes(topo).take(l + 1)),
    decreases l,
{
    let sizes = topo_sizes(topo);
    if l == 0 {
        assert(net_genes(layers.take(0)).len() == 0);
    } else {
        lemma_genes_len_rec(layers, topo, l - 1);
        assert(layers.take(l).drop_last() =~= layers.take(l - 1));
        assert(layers.take(l).last() == layers[l - 1]);
        lemma_layer_genes_len(layers[l - 1].neurons@, topo[l - 1].neurons as int);
        lemma_weight_count_step(sizes, l + 1);
        assert(layers[l - 1].neurons@.len() == sizes[l]);
    }
}

} // verus!
