use vstd::prelude::*;
use crate::game::{Game, GameLoader, loader_name, loader_named};
use crate::vanilla::VanillaLoader;

verus! {

/// The Minecraft game with its vanilla provider.
pub fn minecraft() -> (r: Game)
    ensures
        r.wf(),
        r.spec_id() == "minecraft"@,
        r.spec_loaders() == seq![GameLoader::Vanilla(VanillaLoader {})],
        loader_named(r.spec_loaders(), "vanilla"@) == Some(GameLoader::Vanilla(VanillaLoader {})),
{
    let mut game = Game::new(String::from_str("minecraft"));
    game.add_loader(GameLoader::Vanilla(VanillaLoader::new()));
    proof {
        let s = game.spec_loaders();
        let l = GameLoader::Vanilla(VanillaLoader {});
        assert(s.contains(l));
        assert(s.len() <= 1) by {
            if s.len() > 1 {
                assert(s.contains(s[1]));
                assert(s.contains(s[0]));
                assert(s[0] == l && s[1] == l);
                assert(loader_name(s[0]) == loader_name(s[1]));
            }
        }
        assert(s =~= seq![l]);
        assert(loader_name(s[0]) == "vanilla"@);
    }
    game
}

} // verus!
