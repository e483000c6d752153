//! The shape of a feed-forward network: layers of neurons, each neuron with
//! one weight for every output of the layer before it, and a bias.
//!
//! The network is generic in the type of its weights and never computes with
//! them: it builds the layers, walks them, and picks where a mutation lands.

use rand::{OsRng, Rng};
use vstd::prelude::*;

verus! {

/// How a neuron turns its weighted sum into its output.
#[derive(Clone, Copy, Debug, PartialEq, Eq, Structural)]
pub enum NeuronType {
    Identity,
    SigMoid,
    TanH,
    DeLu,
}

/// A neuron: a weight for each of its inputs, and a bias.
#[derive(Clone, Debug, PartialEq)]
pub struct Neuron<W> {
    pub weights: Vec<W>,
    pub bias: W,
}

/// A neuron as a value of mathematics.
pub struct NeuronView<W> {
    pub weights: Seq<W>,
    pub bias: W,
}

impl<W> View for Neuron<W> {
    type V = NeuronView<W>;

    open spec fn view(&self) -> NeuronView<W> {
        NeuronView { weights: self.weights@, bias: self.bias }
    }
}

/// The neurons of a layer as values of mathematics.
pub open spec fn layer_view<W>(layer: Vec<Neuron<W>>) -> Seq<NeuronView<W>> {
    Seq::new(layer@.len(), |n: int| layer@[n]@)
}

/// The layers of a network as values of mathematics.
pub open spec fn layers_view<W>(layers: Vec<Vec<Neuron<W>>>) -> Seq<Seq<NeuronView<W>>> {
    Seq::new(layers@.len(), |l: int| layer_view(layers@[l]))
}

/// The number of neurons in the first `upto` of `layers`.
pub open spec fn neurons_in<W>(layers: Seq<Seq<NeuronView<W>>>, upto: int) -> int
    decreases upto,
{
    if upto <= 0 {
        0
    } else {
        neurons_in(layers, upto - 1) + layers[upto - 1].len()
    }
}

/// A feed-forward network.
#[derive(Clone, Debug, PartialEq)]
pub struct NeuralNetwork<W> {
    pub inputs: usize,
    pub hidden_layers: Vec<Vec<Neuron<W>>>,
    pub neuron_count: usize,
}

/// A network as a value of mathematics.
pub struct NetworkView<W> {
    pub inputs: nat,
    pub layers: Seq<Seq<NeuronView<W>>>,
    pub neuron_count: nat,
}

impl<W> View for NeuralNetwork<W> {
    type V = NetworkView<W>;

    open spec fn view(&self) -> NetworkView<W> {
        NetworkView {
            inputs: self.inputs as nat,
            layers: layers_view(self.hidden_layers),
            neuron_count: self.neuron_count as nat,
        }
    }
}

impl<W> NetworkView<W> {
    /// The number of weights that a neuron added to layer `layer` gets: one
    /// for each input of the network in the first layer, and one for each
    /// neuron of the layer before in every other.
    pub open spec fn fan_in(self, layer: int) -> nat {
        if layer == 0 {
            self.inputs
        } else {
            self.layers[layer - 1].len()
        }
    }
}

impl<W> NeuralNetwork<W> {
    /// The count of neurons is the number of neurons in the layers.
    pub open spec fn wf(self) -> bool {
        self.neuron_count == neurons_in(self@.layers, self@.layers.len() as int)
    }

    /// A network without inputs and without neurons.
    pub fn new() -> (network: Self)
        ensures
            network@.inputs == 0,
            network@.layers.len() == 0,
            network@.neuron_count == 0,
            network.wf(),
    {
        NeuralNetwork { inputs: 0, hidden_layers: Vec::new(), neuron_count: 0 }
    }

    /// Sets the number of inputs of the network.
    pub fn set_inputs(&mut self, amount: usize)
        ensures
            final(self)@.inputs == amount,
            final(self)@.layers == old(self)@.layers,
            final(self)@.neuron_count == old(self)@.neuron_count,
            old(self).wf() ==> final(self).wf(),
    {
        self.inputs = amount;
    }

    /// Adds `amount` neurons to the layer `layer_index`, which is an existing
    /// layer or the one after the last. Each new neuron gets as many weights
    /// as the layer has inputs, and a bias, each of them from one call of
    /// `draw`.
    pub fn add_neuron_group<F: Fn() -> W>(
        &mut self,
        layer_index: usize,
        neuron_type: NeuronType,
        amount: usize,
        draw: &F,
    )
        requires
            layer_index <= old(self)@.layers.len(),
            old(self).neuron_count + amount <= usize::MAX,
            call_requires(*draw, ()),
        ensures
            final(self)@.inputs == old(self)@.inputs,
            final(self)@.neuron_count == old(self)@.neuron_count + amount,
            final(self)@.layers.len() == if layer_index == old(self)@.layers.len() {
                old(self)@.layers.len() + 1
            } else {
                old(self)@.layers.len()
            },
            forall|l: int|
                0 <= l < old(self)@.layers.len() && l != layer_index
                    ==> #[trigger] final(self)@.layers[l] == old(self)@.layers[l],
            ({
                let before = if layer_index < old(self)@.layers.len() {
                    old(self)@.layers[layer_index as int]
                } else {
                    Seq::empty()
                };
                let after = final(self)@.layers[layer_index as int];
                &&& after.len() == before.len() + amount
                &&& forall|n: int| 0 <= n < before.len() ==> #[trigger] after[n] == before[n]
                &&& forall|n: int|
                    before.len() <= n < after.len() ==> {
                        &&& (#[trigger] after[n]).weights.len() == old(self)@.fan_in(
                            layer_index as int,
                        )
                        &&& call_ensures(*draw, (), after[n].bias)
                        &&& forall|k: int|
                            0 <= k < after[n].weights.len() ==> call_ensures(
                                *draw,
                                (),
                                #[trigger] after[n].weights[k],
                            )
                    }
            }),
            old(self).wf() ==> final(self).wf(),
    {
        let ghost before = self@.layers;
        self.neuron_count = self.neuron_count + amount;
        if self.hidden_layers.len() <= layer_index {
            self.hidden_layers.push(Vec::new());
        }
        let fan_in = if layer_index == 0 {
            self.inputs
        } else {
            self.hidden_layers[layer_index - 1].len()
        };
        let mut layer = self.hidden_layers.remove(layer_index);
        let ghost start = layer_view(layer);
        let mut added: usize = 0;
        while added < amount
            invariant
                added <= amount,
                call_requires(*draw, ()),
                layer@.len() == start.len() + added,
                forall|n: int| 0 <= n < start.len() ==> (#[trigger] layer@[n])@ == start[n],
                forall|n: int|
                    start.len() <= n < layer@.len() ==> {
                        &&& (#[trigger] layer@[n])@.weights.len() == fan_in
                        &&& call_ensures(*draw, (), layer@[n]@.bias)
                        &&& forall|k: int|
                            0 <= k < layer@[n]@.weights.len() ==> call_ensures(
                                *draw,
                                (),
                                #[trigger] layer@[n]@.weights[k],
                            )
                    },
            decreases amount - added,
        {
            let weights = draw_many(fan_in, draw);
            let neuron = Neuron { weights, bias: draw() };
            layer.push(neuron);
            added += 1;
        }
        self.hidden_layers.insert(layer_index, layer);
        proof {
            let after = self@.layers;
            assert forall|l: int| 0 <= l < before.len() && l != layer_index implies after[l]
                == before[l] by {
                assert(after[l] =~= before[l]);
            }
            if layer_index < before.len() {
                assert(start =~= before[layer_index as int]);
                lemma_neurons_in_after_growth(
                    before,
                    after,
                    layer_index as int,
                    amount as int,
                    before.len() as int,
                );
            } else {
                assert(start =~= Seq::empty());
                lemma_neurons_in_after_growth(
                    before,
                    after,
                    layer_index as int,
                    amount as int,
                    before.len() as int,
                );
            }
        }
    }

    /// An iterator over all neurons, layer by layer.
    pub fn iter(&self) -> (iterator: NeuronIterator<'_, W>)
        ensures
            iterator.network == self,
            iterator.current_layer == 0,
            iterator.current_neuron == 0,
            iterator.remaining() == neurons_from(self@.layers, 0, 0),
    {
        NeuronIterator { network: self, current_layer: 0, current_neuron: 0 }
    }

    /// Finishes the structure of the network. There is nothing left to do.
    pub fn build(&self) {
    }
}

/// The neurons of `layers` from the neuron `neuron` of the layer `layer` on,
/// each with the index of its layer: the rest of that layer, then the layers
/// after it.
pub open spec fn neurons_from<W>(layers: Seq<Seq<NeuronView<W>>>, layer: int, neuron: int) -> Seq<
    (int, NeuronView<W>),
>
    decreases layers.len() - layer, layers[layer].len() - neuron,
{
    if layer < 0 || neuron < 0 || layer >= layers.len() {
        Seq::empty()
    } else if neuron >= layers[layer].len() {
        neurons_from(layers, layer + 1, 0)
    } else {
        seq![(layer, layers[layer][neuron])] + neurons_from(layers, layer, neuron + 1)
    }
}

/// A walk through all neurons of a network, layer by layer.
pub struct NeuronIterator<'a, W> {
    pub network: &'a NeuralNetwork<W>,
    pub current_layer: usize,
    pub current_neuron: usize,
}

impl<'a, W> NeuronIterator<'a, W> {
    /// The neurons that the walk has not reached yet, in its order.
    pub open spec fn remaining(self) -> Seq<(int, NeuronView<W>)> {
        neurons_from(self.network@.layers, self.current_layer as int, self.current_neuron as int)
    }

    /// The next neuron of the walk with the index of its layer, or nothing
    /// when the walk is over.
    pub fn next(&mut self) -> (item: Option<(usize, &'a Neuron<W>)>)
        ensures
            final(self).network == old(self).network,
            old(self).remaining().len() == 0 ==> item is None && final(self).remaining().len()
                == 0,
            old(self).remaining().len() > 0 ==> {
                &&& item matches Some((layer, neuron))
                &&& (layer as int, neuron@) == old(self).remaining()[0]
                &&& final(self).remaining() == old(self).remaining().drop_first()
            },
    {
        let network: &'a NeuralNetwork<W> = self.network;
        while self.current_layer < network.hidden_layers.len() && self.current_neuron
            >= network.hidden_layers[self.current_layer].len()
            invariant
                self.network == old(self).network,
                network == self.network,
                self.remaining() == old(self).remaining(),
            decreases network.hidden_layers@.len() - self.current_layer,
        {
            self.current_layer = self.current_layer + 1;
            self.current_neuron = 0;
        }
        if self.current_layer >= network.hidden_layers.len() {
            return None;
        }
        let item = (self.current_layer, &network.hidden_layers[self.current_layer][self.current_neuron]);
        self.current_neuron = self.current_neuron + 1;
        proof {
            let rest = old(self).remaining();
            assert(rest.drop_first() =~= self.remaining());
        }
        Some(item)
    }
}

/// Declares `rand::OsRng`, the generator that draws from the operating
/// system. Nothing is known of what it holds.
#[verifier::external_type_specification]
#[verifier::external_body]
pub struct ExOsRng(OsRng);

/// Calls `rand::Rng::gen_range` with 0 and `bound`, which panics unless 0 is
/// below `bound`. The contract claims that what it returns is below `bound`.
#[verifier::external_body]
fn random_below(generator: &mut OsRng, bound: usize) -> (index: usize)
    requires
        bound > 0,
    ensures
        index < bound,
{
    generator.gen_range(0, bound)
}

/// Where a mutation lands: the neuron that gets a new bias, and the weight
/// that gets a new value.
#[derive(Clone, Copy, Debug, PartialEq, Eq, Structural)]
pub struct MutationSite {
    pub bias_layer: usize,
    pub bias_neuron: usize,
    pub weight_layer: usize,
    pub weight_neuron: usize,
    pub weight_index: usize,
}

impl<W> NetworkView<W> {
    /// The network has the neuron and the weight that the site names.
    pub open spec fn holds(self, site: MutationSite) -> bool {
        &&& site.bias_layer < self.layers.len()
        &&& site.bias_neuron < self.layers[site.bias_layer as int].len()
        &&& site.weight_layer < self.layers.len()
        &&& site.weight_neuron < self.layers[site.weight_layer as int].len()
        &&& site.weight_index < self.layers[site.weight_layer as int][site.weight_neuron
            as int].weights.len()
    }

    /// The site is one that a mutation may pick. It never picks the last
    /// layer, the last neuron of a layer or the last weight of a neuron.
    pub open spec fn admits(self, site: MutationSite) -> bool {
        &&& site.bias_layer < self.layers.len() - 1
        &&& site.bias_neuron < self.layers[site.bias_layer as int].len() - 1
        &&& site.weight_layer < self.layers.len() - 1
        &&& site.weight_neuron < self.layers[site.weight_layer as int].len() - 1
        &&& site.weight_index < self.layers[site.weight_layer as int][site.weight_neuron
            as int].weights.len() - 1
    }

    /// Whatever a mutation picks, there is something to pick from: the
    /// network has two layers or more, every layer but the last has two
    /// neurons or more, and each of their neurons but the last has two
    /// weights or more.
    pub open spec fn mutable(self) -> bool {
        &&& self.layers.len() >= 2
        &&& forall|l: int| 0 <= l < self.layers.len() - 1 ==> (#[trigger] self.layers[l]).len() >= 2
        &&& forall|l: int, n: int|
            0 <= l < self.layers.len() - 1 && 0 <= n < self.layers[l].len() - 1 ==> (
            #[trigger] self.layers[l][n]).weights.len() >= 2
    }

    /// The network with the bias `bias` at the neuron `neuron` of the layer
    /// `layer`.
    pub open spec fn with_bias(self, layer: int, neuron: int, bias: W) -> NetworkView<W> {
        NetworkView {
            inputs: self.inputs,
            layers: self.layers.update(
                layer,
                self.layers[layer].update(
                    neuron,
                    NeuronView { weights: self.layers[layer][neuron].weights, bias },
                ),
            ),
            neuron_count: self.neuron_count,
        }
    }

    /// The network with the value `weight` as the weight `index` of the
    /// neuron `neuron` of the layer `layer`.
    pub open spec fn with_weight(self, layer: int, neuron: int, index: int, weight: W) -> NetworkView<
        W,
    > {
        NetworkView {
            inputs: self.inputs,
            layers: self.layers.update(
                layer,
                self.layers[layer].update(
                    neuron,
                    NeuronView {
                        weights: self.layers[layer][neuron].weights.update(index, weight),
                        bias: self.layers[layer][neuron].bias,
                    },
                ),
            ),
            neuron_count: self.neuron_count,
        }
    }

    /// The network after a mutation at `site`: first the new bias, then the
    /// new weight.
    pub open spec fn mutated(self, site: MutationSite, bias: W, weight: W) -> NetworkView<W> {
        self.with_bias(site.bias_layer as int, site.bias_neuron as int, bias).with_weight(
            site.weight_layer as int,
            site.weight_neuron as int,
            site.weight_index as int,
            weight,
        )
    }
}

impl<W> NeuralNetwork<W> {
    /// Gives the neuron `neuron` of the layer `layer` the bias `bias`.
    pub fn set_bias(&mut self, layer: usize, neuron: usize, bias: W)
        requires
            layer < old(self)@.layers.len(),
            neuron < old(self)@.layers[layer as int].len(),
        ensures
            final(self)@ == old(self)@.with_bias(layer as int, neuron as int, bias),
            old(self).wf() ==> final(self).wf(),
    {
        self.hidden_layers[layer][neuron].bias = bias;
        assert(self@.layers =~~= old(self)@.with_bias(layer as int, neuron as int, bias).layers);
        proof {
            lemma_neurons_in_after_growth(
                old(self)@.layers,
                self@.layers,
                layer as int,
                0,
                self@.layers.len() as int,
            );
        }
    }

    /// Gives the weight `index` of the neuron `neuron` of the layer `layer`
    /// the value `weight`.
    pub fn set_weight(&mut self, layer: usize, neuron: usize, index: usize, weight: W)
        requires
            layer < old(self)@.layers.len(),
            neuron < old(self)@.layers[layer as int].len(),
            index < old(self)@.layers[layer as int][neuron as int].weights.len(),
        ensures
            final(self)@ == old(self)@.with_weight(
                layer as int,
                neuron as int,
                index as int,
                weight,
            ),
            old(self).wf() ==> final(self).wf(),
    {
        self.hidden_layers[layer][neuron].weights[index] = weight;
        assert(self@.layers =~~= old(self)@.with_weight(
            layer as int,
            neuron as int,
            index as int,
            weight,
        ).layers);
        proof {
            lemma_neurons_in_after_growth(
                old(self)@.layers,
                self@.layers,
                layer as int,
                0,
                self@.layers.len() as int,
            );
        }
    }

    /// Mutates the network at `site`: the neuron that the site names gets
    /// the bias `bias`, then the weight that it names gets the value
    /// `weight`.
    pub fn mutate_at(&mut self, site: &MutationSite, bias: W, weight: W)
        requires
            old(self)@.holds(*site),
        ensures
            final(self)@ == old(self)@.mutated(*site, bias, weight),
            old(self).wf() ==> final(self).wf(),
    {
        self.set_bias(site.bias_layer, site.bias_neuron, bias);
        self.set_weight(site.weight_layer, site.weight_neuron, site.weight_index, weight);
    }

    /// Whether a mutation finds something to pick from, whatever it picks.
    pub fn can_mutate(&self) -> (possible: bool)
        ensures
            possible == self@.mutable(),
    {
        let layers = self.hidden_layers.len();
        if layers < 2 {
            return false;
        }
        let mut l: usize = 0;
        while l < layers - 1
            invariant
                layers == self@.layers.len(),
                layers >= 2,
                l <= layers - 1,
                forall|i: int| 0 <= i < l ==> (#[trigger] self@.layers[i]).len() >= 2,
                forall|i: int, n: int|
                    0 <= i < l && 0 <= n < self@.layers[i].len() - 1 ==> (
                    #[trigger] self@.layers[i][n]).weights.len() >= 2,
            decreases layers - l,
        {
            let neurons = self.hidden_layers[l].len();
            if neurons < 2 {
                assert(self@.layers[l as int].len() < 2);
                return false;
            }
            let mut n: usize = 0;
            while n < neurons - 1
                invariant
                    l < layers - 1,
                    layers == self@.layers.len(),
                    neurons == self@.layers[l as int].len(),
                    neurons >= 2,
                    n <= neurons - 1,
                    forall|m: int|
                        0 <= m < n ==> (#[trigger] self@.layers[l as int][m]).weights.len() >= 2,
                decreases neurons - n,
            {
                if self.hidden_layers[l][n].weights.len() < 2 {
                    assert(self@.layers[l as int][n as int].weights.len() < 2);
                    return false;
                }
                n += 1;
            }
            l += 1;
        }
        true
    }

    /// Picks where a mutation lands: a layer and one of its neurons for the
    /// new bias, and a layer, one of its neurons and one of its weights for
    /// the new weight, each drawn from `generator`.
    pub fn pick_site(&self, generator: &mut OsRng) -> (site: MutationSite)
        requires
            self@.mutable(),
        ensures
            self@.admits(site),
            self@.holds(site),
    {
        let layers = self.hidden_layers.len();
        let bias_layer = random_below(generator, layers - 1);
        let weight_layer = random_below(generator, layers - 1);
        assert(self@.layers[bias_layer as int].len() >= 2);
        assert(self@.layers[weight_layer as int].len() >= 2);
        let bias_neuron = random_below(generator, self.hidden_layers[bias_layer].len() - 1);
        let weight_neuron = random_below(generator, self.hidden_layers[weight_layer].len() - 1);
        assert(self@.layers[weight_layer as int][weight_neuron as int].weights.len() >= 2);
        let weight_index = random_below(
            generator,
            self.hidden_layers[weight_layer][weight_neuron].weights.len() - 1,
        );
        MutationSite { bias_layer, bias_neuron, weight_layer, weight_neuron, weight_index }
    }

    /// Mutates the network at a site drawn from `generator`: one neuron gets
    /// the bias `bias`, and one weight gets the value `weight`.
    pub fn mutate_with(&mut self, generator: &mut OsRng, bias: W, weight: W)
        requires
            old(self)@.mutable(),
        ensures
            exists|site: MutationSite|
                old(self)@.admits(site) && #[trigger] old(self)@.mutated(site, bias, weight)
                    == final(self)@,
            old(self).wf() ==> final(self).wf(),
    {
        let site = self.pick_site(generator);
        self.mutate_at(&site, bias, weight);
    }
}

impl<W: Copy> NeuralNetwork<W> {
    /// A copy of the network. Crossing a network over with another gives
    /// such a copy of the first.
    pub fn cross_over(&self, other: &Self) -> (child: Self)
        ensures
            child@ == self@,
            self.wf() ==> child.wf(),
    {
        let mut layers: Vec<Vec<Neuron<W>>> = Vec::new();
        let mut l: usize = 0;
        while l < self.hidden_layers.len()
            invariant
                l <= self.hidden_layers@.len(),
                layers@.len() == l,
                forall|i: int| 0 <= i < l ==> layer_view(#[trigger] layers@[i]) == self@.layers[i],
            decreases self.hidden_layers@.len() - l,
        {
            let mut layer: Vec<Neuron<W>> = Vec::new();
            let mut n: usize = 0;
            while n < self.hidden_layers[l].len()
                invariant
                    l < self.hidden_layers@.len(),
                    n <= self.hidden_layers@[l as int]@.len(),
                    layer@.len() == n,
                    forall|m: int|
                        0 <= m < n ==> (#[trigger] layer@[m])@ == self.hidden_layers@[l as int]@[m]@,
                decreases self.hidden_layers@[l as int]@.len() - n,
            {
                let neuron = &self.hidden_layers[l][n];
                let mut weights: Vec<W> = Vec::new();
                let mut k: usize = 0;
                while k < neuron.weights.len()
                    invariant
                        k <= neuron.weights@.len(),
                        weights@ == neuron.weights@.take(k as int),
                    decreases neuron.weights@.len() - k,
                {
                    weights.push(neuron.weights[k]);
                    k += 1;
                    assert(weights@ =~= neuron.weights@.take(k as int));
                }
                assert(neuron.weights@.take(k as int) =~= neuron.weights@);
                layer.push(Neuron { weights, bias: neuron.bias });
                n += 1;
            }
            assert(layer_view(layer) =~= self@.layers[l as int]);
            layers.push(layer);
            l += 1;
        }
        let child = NeuralNetwork {
            inputs: self.inputs,
            hidden_layers: layers,
            neuron_count: self.neuron_count,
        };
        assert(child@.layers =~= self@.layers);
        child
    }
}

/// A walk from the start reaches every neuron of the network once: it is as
/// long as the layers have neurons.
pub proof fn lemma_walk_reaches_every_neuron<W>(layers: Seq<Seq<NeuronView<W>>>)
    ensures
        neurons_from(layers, 0, 0).len() == neurons_in(layers, layers.len() as int),
{
    lemma_walk_length(layers, 0, 0);
}

/// The length of the walk from a place in the layers.
proof fn lemma_walk_length<W>(layers: Seq<Seq<NeuronView<W>>>, layer: int, neuron: int)
    requires
        0 <= layer <= layers.len(),
        0 <= neuron,
        layer < layers.len() ==> neuron <= layers[layer].len(),
        layer == layers.len() ==> neuron == 0,
    ensures
        neurons_from(layers, layer, neuron).len() == neurons_in(layers, layers.len() as int)
            - neurons_in(layers, layer) - neuron,
    decreases layers.len() - layer, layers[layer].len() - neuron,
{
    if layer < layers.len() {
        if neuron >= layers[layer].len() {
            lemma_walk_length(layers, layer + 1, 0);
        } else {
            lemma_walk_length(layers, layer, neuron + 1);
        }
    }
}

/// A vector of `amount` values, each from one call of `draw`.
fn draw_many<W, F: Fn() -> W>(amount: usize, draw: &F) -> (drawn: Vec<W>)
    requires
        call_requires(*draw, ()),
    ensures
        drawn@.len() == amount,
        forall|k: int| 0 <= k < amount ==> call_ensures(*draw, (), #[trigger] drawn@[k]),
{
    let mut drawn: Vec<W> = Vec::new();
    while drawn.len() < amount
        invariant
            drawn@.len() <= amount,
            call_requires(*draw, ()),
            forall|k: int| 0 <= k < drawn@.len() ==> call_ensures(*draw, (), #[trigger] drawn@[k]),
        decreases amount - drawn@.len(),
    {
        drawn.push(draw());
    }
    drawn
}

/// Growing one layer by `amount` neurons, and leaving the others as long as
/// they were, adds `amount` to the number of neurons of every prefix of the
/// layers that holds the layer.
proof fn lemma_neurons_in_after_growth<W>(
    before: Seq<Seq<NeuronView<W>>>,
    after: Seq<Seq<NeuronView<W>>>,
    layer: int,
    amount: int,
    upto: int,
)
    requires
        0 <= upto <= before.len() <= after.len(),
        0 <= layer,
        forall|l: int| 0 <= l < upto && l != layer ==> (#[trigger] after[l]).len() == before[l].len(),
        layer < upto ==> after[layer].len() == before[layer].len() + amount,
    ensures
        neurons_in(after, upto) == neurons_in(before, upto) + if layer < upto {
            amount
        } else {
            0
        },
    decreases upto,
{
    if upto > 0 {
        lemma_neurons_in_after_growth(before, after, layer, amount, upto - 1);
    }
}

} // verus!
