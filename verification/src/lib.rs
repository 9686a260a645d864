//! Motor de tabuas de decremento: curvas de mortalidade com extrapolacao de
//! fronteira, conversao de periodicidade, decrementos multiplos e vidas
//! conjuntas. As probabilidades sao fracoes exatas em ponto fixo (bilionesimos),
//! de modo que cada operacao tem um contrato aritmetico exato.

pub use crate::periodicidade::Periodicidade;
pub use crate::periodicidade::Periodicidade::{
    Anual, Bimestral, Mensal, Quadrimestral, Semestral, Trimestral,
};
pub use crate::duracao::DuracaoEstendida;
pub use crate::interface::TabuaInterface;
pub use crate::tabua::Tabua;
pub use crate::tabua_mdt::TabuaMDT;
pub use crate::tabua_multiplas_vidas::StatusVidasConjuntas::{First, Last};
pub use crate::tabua_multiplas_vidas::{StatusVidasConjuntas, TabuaMultiplasVidas};
pub use crate::tabua_base::TabuaBase;
pub use crate::taxa::Taxa;

pub mod alterar;
pub mod duracao;
pub mod interface;
pub mod periodicidade;
pub mod tabua;
pub mod tabua_base;
pub mod tabua_mdt;
pub mod tabua_multiplas_vidas;
pub mod taxa;
