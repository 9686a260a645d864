use tabatu::{Periodicidade, Tabua, TabuaInterface, Taxa};

fn taxa_em_milesimos(v: u64) -> Taxa {
    Taxa::nova(v * 1_000_000)
}

fn criar_tabua() -> Tabua {
    Tabua::new(
        vec![
            taxa_em_milesimos(0),
            taxa_em_milesimos(100),
            taxa_em_milesimos(500),
            taxa_em_milesimos(800),
            taxa_em_milesimos(1000),
        ],
        Periodicidade::Mensal,
    )
}

#[test]
fn tabua_pode_ser_criada_a_partir_do_qx_e_periodicidade() {
    criar_tabua();
    assert!(true)
}

#[test]
fn alterar_periodicidade_muda_periodicidade_da_tabua() {
    let tabua = criar_tabua();

    assert_eq!(tabua.periodicidade(), Periodicidade::Mensal);

    let tabua_alterada = tabua.alterar_periodicidade(Periodicidade::Anual);

    assert_eq!(tabua_alterada.periodicidade(), Periodicidade::Anual);
}
