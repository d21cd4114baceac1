//! The order of the generation stages: which stage may run for a region, given
//! the facets that the region already carries.

use vstd::prelude::*;

verus! {

/// A stage of terrain generation. Each stage but the last provides one facet;
/// the last turns the facets into voxels.
#[derive(Clone, Copy, Debug, PartialEq, Eq, Structural)]
pub enum Stage {
    SeaLevel,
    Elevation,
    Roughness,
    Surface,
    Density,
    DensityNoise,
    Rasterize,
}

/// What of a region's generation has been done: for each stage, whether its
/// result is there.
#[derive(Clone, Copy, Debug, PartialEq, Eq, Structural)]
pub struct FacetSet {
    pub sea_level: bool,
    pub elevation: bool,
    pub roughness: bool,
    pub surface: bool,
    pub density: bool,
    pub density_noise: bool,
    pub rasterized: bool,
}

impl FacetSet {
    /// Whether the result of `stage` is there.
    pub open spec fn has(self, stage: Stage) -> bool {
        match stage {
            Stage::SeaLevel => self.sea_level,
            Stage::Elevation => self.elevation,
            Stage::Roughness => self.roughness,
            Stage::Surface => self.surface,
            Stage::Density => self.density,
            Stage::DensityNoise => self.density_noise,
            Stage::Rasterize => self.rasterized,
        }
    }

    /// The set with the result of `stage` added.
    pub open spec fn with(self, stage: Stage) -> FacetSet {
        match stage {
            Stage::SeaLevel => FacetSet { sea_level: true, ..self },
            Stage::Elevation => FacetSet { elevation: true, ..self },
            Stage::Roughness => FacetSet { roughness: true, ..self },
            Stage::Surface => FacetSet { surface: true, ..self },
            Stage::Density => FacetSet { density: true, ..self },
            Stage::DensityNoise => FacetSet { density_noise: true, ..self },
            Stage::Rasterize => FacetSet { rasterized: true, ..self },
        }
    }

    /// Whether every stage that has run had its inputs: nothing is there
    /// without what it was made from.
    pub open spec fn grounded(self) -> bool {
        forall|stage: Stage, input: Stage|
            self.has(stage) && #[trigger] stage.needs(input) ==> self.has(input)
    }

    /// Nothing done yet.
    pub fn new() -> (set: FacetSet)
        ensures
            forall|stage: Stage| !set.has(stage),
            set.grounded(),
    {
        FacetSet {
            sea_level: false,
            elevation: false,
            roughness: false,
            surface: false,
            density: false,
            density_noise: false,
            rasterized: false,
        }
    }

    /// Whether the result of `stage` is there.
    pub fn contains(&self, stage: Stage) -> (r: bool)
        ensures
            r == self.has(stage),
    {
        match stage {
            Stage::SeaLevel => self.sea_level,
            Stage::Elevation => self.elevation,
            Stage::Roughness => self.roughness,
            Stage::Surface => self.surface,
            Stage::Density => self.density,
            Stage::DensityNoise => self.density_noise,
            Stage::Rasterize => self.rasterized,
        }
    }

    /// Records that `stage` has run.
    pub fn insert(&mut self, stage: Stage)
        requires
            stage.ready(*old(self)),
        ensures
            *final(self) == old(self).with(stage),
            old(self).grounded() ==> final(self).grounded(),
    {
        match stage {
            Stage::SeaLevel => {
                self.sea_level = true;
            },
            Stage::Elevation => {
                self.elevation = true;
            },
            Stage::Roughness => {
                self.roughness = true;
            },
            Stage::Surface => {
                self.surface = true;
            },
            Stage::Density => {
                self.density = true;
            },
            Stage::DensityNoise => {
                self.density_noise = true;
            },
            Stage::Rasterize => {
                self.rasterized = true;
            },
        }
        proof {
            if old(self).grounded() {
                assert forall|s: Stage, input: Stage|
                    self.has(s) && #[trigger] s.needs(input) implies self.has(input) by {
                    if s != stage {
                        assert(old(self).has(s));
                    }
                }
            }
        }
    }
}

impl Stage {
    /// Whether this stage reads the result of `input`.
    pub open spec fn needs(self, input: Stage) -> bool {
        match self {
            Stage::SeaLevel => false,
            Stage::Elevation => input == Stage::SeaLevel,
            Stage::Roughness => input == Stage::SeaLevel || input == Stage::Elevation,
            Stage::Surface => input == Stage::Elevation,
            Stage::Density => input == Stage::Elevation,
            Stage::DensityNoise => input == Stage::Roughness || input == Stage::Density || input
                == Stage::Surface,
            Stage::Rasterize => input == Stage::SeaLevel || input == Stage::Surface || input
                == Stage::Density || input == Stage::DensityNoise,
        }
    }

    /// Whether this stage may run for a region that carries `have`: its own
    /// result is not there yet, and the result of every stage it reads is.
    pub open spec fn ready(self, have: FacetSet) -> bool {
        &&& !have.has(self)
        &&& forall|input: Stage| #[trigger] self.needs(input) ==> have.has(input)
    }

    /// How many stages lie, at most, on a path of inputs that ends in this
    /// stage.
    pub open spec fn rank(self) -> nat {
        match self {
            Stage::SeaLevel => 0,
            Stage::Elevation => 1,
            Stage::Roughness => 2,
            Stage::Surface => 2,
            Stage::Density => 2,
            Stage::DensityNoise => 3,
            Stage::Rasterize => 4,
        }
    }

    /// The inputs of a stage come strictly before it, so no stage waits for
    /// itself, directly or through others.
    pub proof fn lemma_inputs_come_first(self, input: Stage)
        requires
            self.needs(input),
        ensures
            input.rank() < self.rank(),
    {
    }

    /// Whether this stage may run for a region that carries `have`.
    pub fn is_ready(&self, have: &FacetSet) -> (r: bool)
        ensures
            r == self.ready(*have),
    {
        let r = match self {
            Stage::SeaLevel => !have.sea_level,
            Stage::Elevation => !have.elevation && have.sea_level,
            Stage::Roughness => !have.roughness && have.sea_level && have.elevation,
            Stage::Surface => !have.surface && have.elevation,
            Stage::Density => !have.density && have.elevation,
            Stage::DensityNoise => !have.density_noise && have.roughness && have.density
                && have.surface,
            Stage::Rasterize => !have.rasterized && have.sea_level && have.surface && have.density
                && have.density_noise,
        };
        proof {
            if r {
                assert forall|input: Stage| #[trigger] self.needs(input) implies have.has(
                    input,
                ) by {}
            } else if !have.has(*self) {
                match self {
                    Stage::SeaLevel => {},
                    Stage::Elevation => {
                        assert(self.needs(Stage::SeaLevel));
                    },
                    Stage::Roughness => {
                        assert(self.needs(Stage::SeaLevel));
                        assert(self.needs(Stage::Elevation));
                    },
                    Stage::Surface => {
                        assert(self.needs(Stage::Elevation));
                    },
                    Stage::Density => {
                        assert(self.needs(Stage::Elevation));
                    },
                    Stage::DensityNoise => {
                        assert(self.needs(Stage::Roughness));
                        assert(self.needs(Stage::Density));
                        assert(self.needs(Stage::Surface));
                    },
                    Stage::Rasterize => {
                        assert(self.needs(Stage::SeaLevel));
                        assert(self.needs(Stage::Surface));
                        assert(self.needs(Stage::Density));
                        assert(self.needs(Stage::DensityNoise));
                    },
                }
            }
        }
        r
    }
}

/// The stages that may run now for a region that carries `have`, in the order
/// of their declaration. They do not read each other's results, so they may
/// run in any order or side by side.
pub fn runnable(have: &FacetSet) -> (stages: Vec<Stage>)
    ensures
        forall|stage: Stage| #[trigger] stages@.contains(stage) <==> stage.ready(*have),
        stages@.no_duplicates(),
{
    let all = [
        Stage::SeaLevel,
        Stage::Elevation,
        Stage::Roughness,
        Stage::Surface,
        Stage::Density,
        Stage::DensityNoise,
        Stage::Rasterize,
    ];
    let mut stages: Vec<Stage> = Vec::new();
    let mut i: usize = 0;
    while i < 7
        invariant
            i <= 7,
            all@ == seq![
                Stage::SeaLevel,
                Stage::Elevation,
                Stage::Roughness,
                Stage::Surface,
                Stage::Density,
                Stage::DensityNoise,
                Stage::Rasterize,
            ],
            forall|k: int| 0 <= k < stages@.len() ==> (#[trigger] stages@[k]).ready(*have),
            forall|k: int|
                0 <= k < stages@.len() ==> exists|j: int|
                    0 <= j < i && all@[j] == #[trigger] stages@[k],
            forall|j: int|
                0 <= j < i && (#[trigger] all@[j]).ready(*have) ==> stages@.contains(all@[j]),
            stages@.no_duplicates(),
        decreases 7 - i,
    {
        let stage = all[i];
        if stage.is_ready(have) {
            let ghost before = stages@;
            assert(!before.contains(stage)) by {
                if before.contains(stage) {
                    let k = choose|k: int| 0 <= k < before.len() && before[k] == stage;
                    let j = choose|j: int| 0 <= j < i && all@[j] == before[k];
                    assert(all@[j] == all@[i as int]);
                }
            }
            stages.push(stage);
            proof {
                assert forall|j: int| 0 <= j < i + 1 && (#[trigger] all@[j]).ready(
                    *have,
                ) implies stages@.contains(all@[j]) by {
                    if j < i {
                        let k = choose|k: int| 0 <= k < before.len() && before[k] == all@[j];
                        assert(stages@[k] == all@[j]);
                    } else {
                        assert(stages@[stages@.len() - 1] == stage);
                    }
                }
                assert forall|k: int| 0 <= k < stages@.len() implies exists|j: int|
                    0 <= j < i + 1 && all@[j] == #[trigger] stages@[k] by {
                    if k < before.len() {
                        let j = choose|j: int| 0 <= j < i && all@[j] == before[k];
                        assert(all@[j] == stages@[k]);
                    } else {
                        assert(all@[i as int] == stages@[k]);
                    }
                }
            }
        }
        i += 1;
    }
    proof {
        assert forall|stage: Stage| #[trigger] stages@.contains(stage) <==> stage.ready(*have) by {
            if stage.ready(*have) {
                let j: int = match stage {
                    Stage::SeaLevel => 0,
                    Stage::Elevation => 1,
                    Stage::Roughness => 2,
                    Stage::Surface => 3,
                    Stage::Density => 4,
                    Stage::DensityNoise => 5,
                    Stage::Rasterize => 6,
                };
                assert(all@[j] == stage);
            }
        }
    }
    stages
}

} // verus!
