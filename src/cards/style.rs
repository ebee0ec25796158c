//! Style sheets shared by the cards.

use vstd::prelude::*;

verus! {

/// The keyframes every card uses.
pub const ANIMATIONS: &'static str = "/* Animations */
      @keyframes scaleInAnimation {
        from {
          transform: translate(-5px, 5px) scale(0);
        }
        to {
          transform: translate(-5px, 5px) scale(1);
        }
      }
      @keyframes fadeInAnimation {
        from {
          opacity: 0;
        }
        to {
          opacity: 1;
        }
      }
    ";

/// The keyframes every card uses.
pub fn get_animations() -> (r: &'static str)
    ensures
        r@ == ANIMATIONS@,
{
    ANIMATIONS
}

} // verus!
